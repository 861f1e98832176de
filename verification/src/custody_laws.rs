//! What holds of local paths and of the documents kept under them.

use vstd::prelude::*;
use vstd::utf8::*;

use crate::command;
use crate::command::{InitEvent, InitStep, REGISTRY_TEMPLATE};
use crate::custody;
use crate::custody::{ActionView, FileRead, PrivateWriteView, WriteStep, OWNER_DIRECTORY, OWNER_FILE};
use crate::error::ErrorView;
use crate::identity;
use crate::json::JsonTree;
use crate::outside;
use crate::paths;
use crate::registry;
use crate::registry::DeclarationView;
use crate::schema;
use crate::text;

verus! {

/// A name of one path component, in plain ASCII.
pub open spec fn plain_name(name: Seq<char>) -> bool {
    &&& name.len() > 0
    &&& is_ascii_chars(name)
    &&& forall|i: int| 0 <= i < name.len() ==> #[trigger] name[i] != '/'
}

/// A plain name is one relative path component in bytes, too.
proof fn lemma_plain_bytes(name: Seq<char>)
    requires
        plain_name(name),
    ensures
        encode_utf8(name).len() == name.len(),
        !paths::absolute(encode_utf8(name)),
        forall|i: int| 0 <= i < encode_utf8(name).len() ==> #[trigger] encode_utf8(name)[i] != 0x2f,
{
    is_ascii_chars_encode_utf8(name);
    assert forall|i: int| 0 <= i < encode_utf8(name).len() implies #[trigger] encode_utf8(name)[i]
        != 0x2f by {
        assert(name[i] != '/');
    }
}

/// Different texts have different bytes.
proof fn lemma_encoding_is_injective(a: Seq<char>, b: Seq<char>)
    requires
        encode_utf8(a) == encode_utf8(b),
    ensures
        a == b,
{
    encode_utf8_decode_utf8(a);
    encode_utf8_decode_utf8(b);
}

/// Two relative parts under one base are at one place only where they are the same.
proof fn lemma_join_is_injective(base: Seq<u8>, a: Seq<u8>, b: Seq<u8>)
    requires
        !paths::absolute(a),
        !paths::absolute(b),
        paths::joined_path(base, a) == paths::joined_path(base, b),
    ensures
        a == b,
{
    let front = if base.len() == 0 || base.last() == 0x2f {
        base
    } else {
        base.push(0x2f)
    };
    assert(paths::joined_path(base, a) == front + a);
    assert(paths::joined_path(base, b) == front + b);
    assert((front + a).skip(front.len() as int) =~= a);
    assert((front + b).skip(front.len() as int) =~= b);
}

/// What is joined to a base with a plain name is one component below it.
pub proof fn law_plain_names_stay_below(base: Seq<u8>, name: Seq<char>)
    requires
        plain_name(name),
        base.len() > 0,
    ensures
        base.is_prefix_of(paths::joined_path(base, encode_utf8(name))),
        paths::joined_path(base, encode_utf8(name)).len() > base.len(),
        forall|i: int|
            base.len() < i < paths::joined_path(base, encode_utf8(name)).len() ==> (
            #[trigger] paths::joined_path(base, encode_utf8(name))[i]) != 0x2f,
{
    lemma_plain_bytes(name);
    let path = paths::joined_path(base, encode_utf8(name));
    assert(path.take(base.len() as int) =~= base);
}

/// The file of a connection's credentials bears a plain name.
proof fn lemma_credential_name(id: Seq<char>)
    requires
        identity::connection_name(id),
    ensures
        plain_name(id + ".json"@),
        plain_name(id),
{
    reveal_strlit(".json");
    let name = id + ".json"@;
    assert forall|i: int| 0 <= i < name.len() implies is_ascii_char_at(name, i) && #[trigger] name[i]
        != '/' by {
        if i < id.len() {
            assert(identity::id_character(id[i]));
            assert(name[i] == id[i]);
        } else {
            assert(name[i] == ".json"@[i - id.len()]);
        }
    }
    assert forall|i: int| 0 <= i < id.len() implies is_ascii_char_at(id, i) && #[trigger] id[i]
        != '/' by {
        assert(identity::id_character(id[i]));
    }
    lemma_ascii(name);
    lemma_ascii(id);
}

/// Whether the character at a position is ASCII.
pub open spec fn is_ascii_char_at(text: Seq<char>, i: int) -> bool {
    '\0' <= text[i] <= '\u{7f}'
}

/// A text all of whose characters are ASCII is ASCII.
proof fn lemma_ascii(text: Seq<char>)
    requires
        forall|i: int| 0 <= i < text.len() ==> #[trigger] is_ascii_char_at(text, i),
    ensures
        is_ascii_chars(text),
{
    assert forall|i: int| 0 <= i < text.len() implies '\0' <= #[trigger] text[i] <= '\u{7f}' by {
        assert(is_ascii_char_at(text, i));
    }
}

/// Different connections keep their credentials in different files, each one component
/// below the directory.
pub proof fn law_credentials_do_not_collide(directory: Seq<u8>, a: Seq<char>, b: Seq<char>)
    requires
        identity::connection_name(a),
        identity::connection_name(b),
    ensures
        custody::credential_path(directory, a) == custody::credential_path(directory, b) ==> a == b,
{
    lemma_credential_name(a);
    lemma_credential_name(b);
    lemma_plain_bytes(a + ".json"@);
    lemma_plain_bytes(b + ".json"@);
    if custody::credential_path(directory, a) == custody::credential_path(directory, b) {
        lemma_join_is_injective(directory, encode_utf8(a + ".json"@), encode_utf8(b + ".json"@));
        lemma_encoding_is_injective(a + ".json"@, b + ".json"@);
        assert((a + ".json"@).len() == (b + ".json"@).len());
        assert((a + ".json"@).take(a.len() as int) =~= a);
        assert((b + ".json"@).take(b.len() as int) =~= b);
    }
}

/// Different connections keep their authorization sessions in different directories.
pub proof fn law_sessions_do_not_collide(state: Seq<u8>, a: Seq<char>, b: Seq<char>)
    requires
        identity::connection_name(a),
        identity::connection_name(b),
    ensures
        paths::session_directory(state, a) == paths::session_directory(state, b) ==> a == b,
{
    lemma_credential_name(a);
    lemma_credential_name(b);
    lemma_plain_bytes(a);
    lemma_plain_bytes(b);
    if paths::session_directory(state, a) == paths::session_directory(state, b) {
        let base = paths::joined_path(state, encode_utf8("authorization"@));
        lemma_join_is_injective(base, encode_utf8(a), encode_utf8(b));
        lemma_encoding_is_injective(a, b);
    }
}

/// A digest in base sixteen is a plain name, two lowercase digits for each byte.
pub proof fn law_digests_are_plain_names(digest: Seq<u8>)
    requires
        digest.len() > 0,
    ensures
        plain_name(text::hexadecimal(digest)),
        text::hexadecimal(digest).len() == 2 * digest.len(),
{
    let name = text::hexadecimal(digest);
    text::lemma_hexadecimal(digest);
    assert forall|i: int| 0 <= i < name.len() implies is_ascii_char_at(name, i) && #[trigger] name[i]
        != '/' by {
        assert('0' <= name[i] <= '9' || 'a' <= name[i] <= 'f');
    }
    lemma_ascii(name);
}

/// A file system: what files hold, and the modes that are known.
#[verifier::ext_equal]
pub struct Disk {
    pub files: Map<Seq<u8>, Seq<char>>,
    pub modes: Map<Seq<u8>, u32>,
}

impl Disk {
    /// The file system after an action that writes a document.
    pub open spec fn after(self, action: ActionView, document: Seq<char>) -> Disk {
        match action {
            ActionView::CreateDirectory(_) => self,
            ActionView::Restrict(path, mode) => Disk {
                files: self.files,
                modes: self.modes.insert(path, mode),
            },
            ActionView::Write(path) => Disk {
                files: self.files.insert(path, document),
                modes: self.modes.remove(path),
            },
            ActionView::Rename(from, to) => Disk {
                files: self.files.remove(from).insert(to, self.files[from]),
                modes: self.modes.remove(from).insert(to, self.modes[from]),
            },
            ActionView::Nothing => self,
        }
    }

    /// The file system once a write has gone on for a number of steps.
    pub open spec fn written(self, write: PrivateWriteView, document: Seq<char>, steps: nat) -> Disk
        decreases steps,
    {
        if steps == 0 {
            self
        } else {
            self.after(write.due(), document).written(
                write.advanced(),
                document,
                (steps - 1) as nat,
            )
        }
    }
}

/// A write that goes through leaves the document at its target, readable by its owner only,
/// in a directory that only its owner may enter, no temporary file, and every other file as
/// it was.
pub proof fn law_writes_replace_the_document(
    disk: Disk,
    write: PrivateWriteView,
    document: Seq<char>,
)
    requires
        write.step == WriteStep::CreateDirectory,
        write.directory != write.temporary,
        write.directory != write.target,
    ensures
        disk.written(write, document, 5).files == disk.files.remove(write.temporary).insert(
            write.target,
            document,
        ),
        disk.written(write, document, 5).modes[write.target] == OWNER_FILE,
        disk.written(write, document, 5).modes[write.directory] == OWNER_DIRECTORY,
{
    reveal_with_fuel(Disk::written, 6);
    assert(disk.written(write, document, 5).files =~= disk.files.remove(write.temporary).insert(
        write.target,
        document,
    ));
}

/// A write that stops before its last step has touched no file but the temporary one: the
/// document that was there is still there, whole.
pub proof fn law_unfinished_writes_keep_the_document(
    disk: Disk,
    write: PrivateWriteView,
    document: Seq<char>,
    steps: nat,
    path: Seq<u8>,
)
    requires
        write.step == WriteStep::CreateDirectory,
        steps < 5,
        path != write.temporary,
    ensures
        disk.written(write, document, steps).files.contains_key(path)
            == disk.files.contains_key(path),
        disk.files.contains_key(path) ==> disk.written(write, document, steps).files[path]
            == disk.files[path],
{
    reveal_with_fuel(Disk::written, 6);
}

/// The writes that stores start meet what the laws above ask for, and end where a read
/// looks: credentials under the name of their connection, sessions under their own name.
pub proof fn law_stores_write_where_they_read(
    directory: Seq<u8>,
    id: Seq<char>,
    session: Seq<char>,
    process: nat,
)
    requires
        directory.len() > 0,
        identity::connection_name(id),
        plain_name(session),
    ensures
        ({
            let write = custody::private_write(directory, id, ".json"@, process);
            &&& write.step == WriteStep::CreateDirectory
            &&& write.target == custody::credential_path(directory, id)
            &&& write.directory != write.temporary
            &&& write.directory != write.target
            &&& write.temporary != write.target
        }),
        ({
            let write = custody::private_write(directory, session, ""@, process);
            &&& write.step == WriteStep::CreateDirectory
            &&& write.target == paths::joined_path(directory, encode_utf8(session))
            &&& write.directory != write.temporary
            &&& write.directory != write.target
            &&& write.temporary != write.target
        }),
{
    reveal_strlit(".json");
    reveal_strlit("");
    reveal_strlit(".tmp-");
    let json = id + ".json"@;
    let id_temporary = custody::temporary_name(id, process);
    let temporary = custody::temporary_name(session, process);
    lemma_credential_name(id);
    lemma_temporary_name(id, process);
    lemma_temporary_name(session, process);
    assert(session + ""@ =~= session);
    law_plain_names_stay_below(directory, json);
    law_plain_names_stay_below(directory, session);
    law_plain_names_stay_below(directory, id_temporary);
    law_plain_names_stay_below(directory, temporary);
    lemma_plain_bytes(json);
    lemma_plain_bytes(session);
    lemma_plain_bytes(id_temporary);
    lemma_plain_bytes(temporary);
    let n = (id.len() + 1) as int;
    if paths::joined_path(directory, encode_utf8(id_temporary)) == paths::joined_path(
        directory,
        encode_utf8(json),
    ) {
        lemma_join_is_injective(directory, encode_utf8(id_temporary), encode_utf8(json));
        lemma_encoding_is_injective(id_temporary, json);
        assert(id_temporary[n] == 't');
        assert(json[n] == 'j');
    }
    if paths::joined_path(directory, encode_utf8(temporary)) == paths::joined_path(
        directory,
        encode_utf8(session),
    ) {
        lemma_join_is_injective(directory, encode_utf8(temporary), encode_utf8(session));
        lemma_encoding_is_injective(temporary, session);
    }
}

/// The temporary file beside a plainly named document is plainly named.
proof fn lemma_temporary_name(stem: Seq<char>, process: nat)
    requires
        plain_name(stem),
    ensures
        plain_name(custody::temporary_name(stem, process)),
        custody::temporary_name(stem, process).len() > stem.len() + 4,
{
    reveal_strlit(".tmp-");
    lemma_decimal(process);
    let name = custody::temporary_name(stem, process);
    let number = text::decimal(process);
    is_ascii_chars_nat_bound(stem);
    assert forall|i: int| 0 <= i < name.len() implies is_ascii_char_at(name, i) && #[trigger] name[i]
        != '/' by {
        if i < stem.len() {
            assert(name[i] == stem[i]);
        } else if i < stem.len() + 5 {
            assert(name[i] == ".tmp-"@[i - stem.len()]);
        } else {
            assert(name[i] == number[i - stem.len() - 5]);
        }
    }
    lemma_ascii(name);
}

/// A number in base ten is one or more decimal digits.
pub proof fn lemma_decimal(n: nat)
    ensures
        text::decimal(n).len() > 0,
        forall|i: int|
            0 <= i < text::decimal(n).len() ==> '0' <= #[trigger] text::decimal(n)[i] <= '9',
    decreases n,
{
    reveal_strlit("0123456789abcdef");
    if n >= 10 {
        lemma_decimal(n / 10);
    }
}

/// What a read gives back of a document that was written is that document.
pub proof fn law_reads_give_back_what_was_written(what: Seq<char>, document: String)
    ensures
        custody::read_outcome(what, FileRead::Text(document)) == Ok::<_, ErrorView>(
            Some(document@),
        ),
        custody::read_outcome(what, FileRead::Missing) == Ok::<_, ErrorView>(
            None::<Seq<char>>,
        ),
{
}

/// A registry is written only where none was found, and nothing but that finding leads on
/// from the first step.
pub proof fn law_registries_are_never_overwritten(step: InitStep, event: InitEvent)
    ensures
        step == InitStep::Probe && command::init_outcome(step, event) is Ok
            && command::init_outcome(step, event)->Ok_0 != InitStep::Probe ==> event
            == InitEvent::Probed(false),
        command::init_outcome(step, event) == Ok::<_, ErrorView>(InitStep::Write) ==> step
            == InitStep::CreateDirectory || step == InitStep::Write,
        command::init_outcome(step, event) == Ok::<_, ErrorView>(InitStep::CreateDirectory)
            ==> step == InitStep::CreateDirectory || step == InitStep::Probe && event
            == InitEvent::Probed(false),
{
}

/// Whether the events in the creation of a registry tell the truth of whether there is one.
pub open spec fn truthful(there: bool, step: InitStep, events: Seq<InitEvent>) -> bool
    decreases events.len(),
{
    events.len() > 0 ==> {
        &&& step == InitStep::Probe && events[0] is Probed ==> events[0] == InitEvent::Probed(there)
        &&& command::init_outcome(step, events[0]) matches Ok(next) ==> truthful(
            there,
            next,
            events.skip(1),
        )
    }
}

/// What files hold once the creation of a registry has gone through these events, or what it
/// was refused for. Nothing is said of the file that a write failed on.
pub open spec fn created(
    files: Map<Seq<u8>, Seq<char>>,
    path: Seq<u8>,
    step: InitStep,
    events: Seq<InitEvent>,
) -> Result<(InitStep, Map<Seq<u8>, Seq<char>>), ErrorView>
    decreases events.len(),
{
    if events.len() == 0 {
        Ok((step, files))
    } else {
        match command::init_outcome(step, events[0]) {
            Err(error) => Err(error),
            Ok(next) => created(
                if step == InitStep::Write && next == InitStep::Done {
                    files.insert(path, REGISTRY_TEMPLATE@)
                } else {
                    files
                },
                path,
                next,
                events.skip(1),
            ),
        }
    }
}

/// The document of a new registry: one table of connections, with none in it.
pub open spec fn empty_document() -> JsonTree {
    JsonTree::Object(
        Map::empty().insert("connections"@, JsonTree::Object(Map::empty())),
    )
}

/// A creation that is done has put the template where nothing was and changed no other file.
/// Where something was, it was refused at the probe, before any file was touched.
pub proof fn law_created_registries_hold_the_template(
    files: Map<Seq<u8>, Seq<char>>,
    path: Seq<u8>,
    events: Seq<InitEvent>,
)
    requires
        truthful(files.contains_key(path), InitStep::Probe, events),
    ensures
        created(files, path, InitStep::Probe, events) matches Ok((step, after)) ==> {
            &&& step == InitStep::Done ==> !files.contains_key(path) && after == files.insert(
                path,
                REGISTRY_TEMPLATE@,
            )
            &&& step != InitStep::Done ==> after == files
            &&& files.contains_key(path) ==> step == InitStep::Probe
        },
        files.contains_key(path) && events.len() > 0 && events[0] is Probed ==> created(
            files,
            path,
            InitStep::Probe,
            events,
        ) == Err::<(InitStep, Map<Seq<u8>, Seq<char>>), _>(
            ErrorView::Configuration("registry already exists"@),
        ),
{
    lemma_created(files, path, InitStep::Probe, events);
}

/// How a creation goes on from any step before its last.
proof fn lemma_created(
    files: Map<Seq<u8>, Seq<char>>,
    path: Seq<u8>,
    step: InitStep,
    events: Seq<InitEvent>,
)
    requires
        truthful(files.contains_key(path), step, events),
        step != InitStep::Done,
        step != InitStep::Probe ==> !files.contains_key(path),
    ensures
        created(files, path, step, events) matches Ok((last, after)) ==> {
            &&& last == InitStep::Done ==> !files.contains_key(path) && after == files.insert(
                path,
                REGISTRY_TEMPLATE@,
            )
            &&& last != InitStep::Done ==> after == files
            &&& files.contains_key(path) ==> last == InitStep::Probe
        },
    decreases events.len(),
{
    if events.len() > 0 {
        if let Ok(next) = command::init_outcome(step, events[0]) {
            if next == InitStep::Done {
                lemma_done(files.insert(path, REGISTRY_TEMPLATE@), path, events.skip(1));
            } else {
                lemma_created(files, path, next, events.skip(1));
            }
        }
    }
}

/// A creation that is done stays done.
proof fn lemma_done(files: Map<Seq<u8>, Seq<char>>, path: Seq<u8>, events: Seq<InitEvent>)
    ensures
        created(files, path, InitStep::Done, events) == Ok::<_, ErrorView>(
            (InitStep::Done, files),
        ),
    decreases events.len(),
{
    if events.len() > 0 {
        lemma_done(files, path, events.skip(1));
    }
}

/// A registry that was created loads as one with no connections, where the template is the
/// document that it looks like.
pub proof fn law_created_registries_load_as_empty(
    files: Map<Seq<u8>, Seq<char>>,
    path: Seq<u8>,
    events: Seq<InitEvent>,
)
    requires
        truthful(files.contains_key(path), InitStep::Probe, events),
        outside::toml_document(REGISTRY_TEMPLATE@) == Ok::<_, Seq<char>>(empty_document()),
    ensures
        created(files, path, InitStep::Probe, events) matches Ok((step, after)) ==> (step
            == InitStep::Done ==> after.contains_key(path) && schema::parsed_registry(
            outside::toml_document(after[path]),
        ) == Ok::<_, ErrorView>(Map::<Seq<char>, DeclarationView>::empty())),
{
    law_created_registries_hold_the_template(files, path, events);
    let none = Map::<Seq<char>, JsonTree>::empty();
    let document = empty_document();
    let fields = seq!["connections"@];
    assert(fields[0] == "connections"@);
    assert(schema::table_complaint(document, "registry"@, fields) is None);
    assert forall|name: Seq<char>| !#[trigger] schema::undeclared(none, name) by {}
    assert(schema::read_document(document)->Ok_0 =~= Map::<Seq<char>, DeclarationView>::empty());
    let empty = Map::<Seq<char>, DeclarationView>::empty();
    assert forall|name: Seq<char>| !#[trigger] registry::refused(empty, name) by {}
}

} // verus!
