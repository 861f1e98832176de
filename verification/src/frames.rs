//! The bound on newline-delimited messages.

use vstd::prelude::*;

use crate::error::{ClientError, ErrorView};

verus! {

/// What bytes leave of a message whose first `length` bytes have been seen: the length of the
/// message that they end in, or the refusal of one that is too long.
pub open spec fn metered(length: nat, bytes: Seq<u8>, limit: nat) -> Result<nat, ErrorView>
    decreases bytes.len(),
{
    if bytes.len() == 0 {
        Ok(length)
    } else {
        match metered(length, bytes.drop_last(), limit) {
            Err(error) => Err(error),
            Ok(length) => if bytes.last() == 0x0a {
                Ok(0)
            } else if length < limit {
                Ok(length + 1)
            } else {
                Err(ErrorView::Bound { name: "max_frame_bytes"@, actual: length + 1, limit })
            },
        }
    }
}

/// Counts the bytes of newline-delimited messages as they arrive.
#[derive(Debug, PartialEq, Eq)]
pub struct FrameMeter {
    limit: usize,
    length: usize,
}

/// The contents of a meter.
#[verifier::ext_equal]
pub struct MeterView {
    pub limit: nat,
    pub length: nat,
}

impl View for FrameMeter {
    type V = MeterView;

    closed spec fn view(&self) -> MeterView {
        MeterView { limit: self.limit as nat, length: self.length as nat }
    }
}

/// A refusal within the first `n` bytes is the refusal of them all.
proof fn lemma_refused_prefix(length: nat, bytes: Seq<u8>, limit: nat, n: int)
    requires
        0 <= n <= bytes.len(),
        metered(length, bytes.take(n), limit) is Err,
    ensures
        metered(length, bytes, limit) == metered(length, bytes.take(n), limit),
    decreases bytes.len() - n,
{
    if n < bytes.len() {
        assert(bytes.take(n + 1).drop_last() =~= bytes.take(n));
        lemma_refused_prefix(length, bytes, limit, n + 1);
    } else {
        assert(bytes.take(n) =~= bytes);
    }
}

impl FrameMeter {
    #[verifier::type_invariant]
    spec fn within(self) -> bool {
        self.length <= self.limit < usize::MAX
    }

    /// A meter that has seen nothing. The largest limit that the machine holds counts as one
    /// less, so that a message beyond it can still be told.
    pub fn new(limit: usize) -> (r: Self)
        ensures
            r@.length == 0,
            r@.limit == if limit < usize::MAX {
                limit as nat
            } else {
                (limit - 1) as nat
            },
    {
        FrameMeter {
            limit: if limit < usize::MAX {
                limit
            } else {
                limit - 1
            },
            length: 0,
        }
    }

    /// Takes in bytes that have arrived. A message that is too long is refused by the name of
    /// the bound, and the meter stays as it was.
    pub fn absorb(&mut self, bytes: &[u8]) -> (r: Result<(), ClientError>)
        ensures
            final(self)@.limit == old(self)@.limit,
            match metered(old(self)@.length, bytes@, old(self)@.limit) {
                Ok(length) => r is Ok && final(self)@.length == length,
                Err(error) => r is Err && r->Err_0@ == error && final(self)@ == old(self)@,
            },
    {
        proof {
            use_type_invariant(&*self);
        }
        let limit: usize = self.limit;
        let mut length: usize = self.length;
        let ghost start = length as nat;
        let mut i: usize = 0;
        assert(bytes@.take(0) =~= Seq::<u8>::empty());
        while i < bytes.len()
            invariant
                i <= bytes@.len(),
                length <= limit < usize::MAX,
                limit == self@.limit,
                start == self@.length,
                *self == *old(self),
                metered(start, bytes@.take(i as int), limit as nat) == Ok::<_, ErrorView>(
                    length as nat,
                ),
            decreases bytes@.len() - i,
        {
            assert(bytes@.take(i + 1).drop_last() =~= bytes@.take(i as int));
            if bytes[i] == 0x0a {
                length = 0;
            } else if length < limit {
                length = length + 1;
            } else {
                proof {
                    lemma_refused_prefix(start, bytes@, limit as nat, i + 1);
                }
                return Err(
                    ClientError::Bound { name: "max_frame_bytes", actual: length + 1, limit },
                );
            }
            i = i + 1;
        }
        assert(bytes@.take(i as int) =~= bytes@);
        self.length = length;
        Ok(())
    }
}

/// How a stream of bytes is cut into pieces changes nothing in how it is metered.
pub proof fn law_metering_is_incremental(length: nat, a: Seq<u8>, b: Seq<u8>, limit: nat)
    ensures
        metered(length, a + b, limit) == match metered(length, a, limit) {
            Ok(middle) => metered(middle, b, limit),
            Err(error) => Err(error),
        },
    decreases b.len(),
{
    if b.len() == 0 {
        assert(a + b =~= a);
    } else {
        law_metering_is_incremental(length, a, b.drop_last(), limit);
        assert((a + b).drop_last() =~= a + b.drop_last());
        assert((a + b).last() == b.last());
    }
}

/// Whether the bytes from `i` up to `j` hold no newline.
pub open spec fn unbroken(bytes: Seq<u8>, i: int, j: int) -> bool {
    0 <= i <= j <= bytes.len() && forall|k: int| i <= k < j ==> #[trigger] bytes[k] != 0x0a
}

/// A stream is accepted exactly where no run of bytes without a newline is longer than the
/// limit.
pub proof fn law_long_messages_are_refused(bytes: Seq<u8>, limit: nat)
    ensures
        metered(0, bytes, limit) is Ok <==> forall|i: int, j: int| #[trigger]
            unbroken(bytes, i, j) ==> j - i <= limit,
        metered(0, bytes, limit) matches Ok(length) ==> unbroken(
            bytes,
            bytes.len() - length,
            bytes.len() as int,
        ) && (length < bytes.len() ==> bytes[bytes.len() - length - 1] == 0x0a),
    decreases bytes.len(),
{
    if bytes.len() > 0 {
        let front = bytes.drop_last();
        let n = bytes.len() as int;
        law_long_messages_are_refused(front, limit);
        assert forall|i: int, j: int| unbroken(front, i, j) implies unbroken(bytes, i, j) by {
            assert forall|k: int| i <= k < j implies #[trigger] bytes[k] != 0x0a by {
                assert(front[k] != 0x0a);
            }
        }
        if let Ok(length) = metered(0, front, limit) {
            let last = bytes.last();
            let whole = metered(0, bytes, limit);
            if last != 0x0a {
                let start = n - 1 - length;
                assert(unbroken(bytes, start, n)) by {
                    assert forall|k: int| start <= k < n implies #[trigger] bytes[k] != 0x0a by {
                        if k < n - 1 {
                            assert(front[k] != 0x0a);
                        }
                    }
                }
                if length < front.len() {
                    assert(front[front.len() - length - 1] == 0x0a);
                    assert(bytes[start - 1] == 0x0a);
                }
            }
            if whole is Ok {
                assert forall|i: int, j: int| #[trigger] unbroken(bytes, i, j) implies j - i
                    <= limit by {
                    if j < n {
                        assert(unbroken(front, i, j)) by {
                            assert forall|k: int| i <= k < j implies #[trigger] front[k] != 0x0a by {
                                assert(bytes[k] != 0x0a);
                            }
                        }
                    } else if i < j {
                        assert(bytes[n - 1] != 0x0a);
                        let start = n - 1 - length;
                        if i < start {
                            assert(bytes[start - 1] == 0x0a);
                        }
                    }
                }
            }
        } else {
            let (i, j) = choose|i: int, j: int| #[trigger] unbroken(front, i, j) && !(j - i <= limit);
            assert(unbroken(bytes, i, j));
        }
    } else {
        assert forall|i: int, j: int| #[trigger] unbroken(bytes, i, j) implies j - i <= limit by {
        }
    }
}

} // verus!
