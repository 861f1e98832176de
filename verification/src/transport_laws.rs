//! What transports, headers and reports of failure owe to what was declared.

use vstd::prelude::*;

use crate::bearer;
use crate::challenge;
use crate::client;
use crate::client::{Cause, FailureClass, HttpPlan, LaunchPlan, NegotiationFailure};
use crate::endpoint;
use crate::endpoint::{HostAddress, UrlParts, UrlView};
use crate::error::ErrorView;
use crate::exchange;
use crate::headers;
use crate::identity;
use crate::limits::Limits;
use crate::refusal;
use crate::text;
use crate::transport::{HttpTransportConfig, StdioTransportConfig};

verus! {

/// A letter of the alphabet of header names.
pub open spec fn name_letter(c: char) -> bool {
    ||| 'a' <= c <= 'z'
    ||| 'A' <= c <= 'Z'
    ||| '0' <= c <= '9'
    ||| c == '!' || c == '#' || c == '$' || c == '%' || c == '&' || c == '\'' || c == '*'
    ||| c == '+' || c == '-' || c == '.' || c == '^' || c == '_' || c == '`' || c == '|' || c == '~'
}

/// Names of headers and methods are tokens, letter by letter; a header name has at most as
/// many as a length of two bytes can count.
pub proof fn law_names_are_tokens(name: Seq<char>)
    ensures
        headers::valid_method(name) <==> name.len() > 0 && forall|i: int|
            0 <= i < name.len() ==> name_letter(#[trigger] name[i]),
        headers::valid_name(name) <==> headers::valid_method(name) && name.len() < 65536,
{
    reveal_strlit("!#$%&'*+-.^_`|~");
    let others = "!#$%&'*+-.^_`|~"@;
    assert forall|c: char| headers::token_character(c) == name_letter(c) by {
        if others.contains(c) {
            let k = choose|k: int| 0 <= k < others.len() && others[k] == c;
            assert(others[k] == c);
        }
        if name_letter(c) && !('a' <= c <= 'z' || 'A' <= c <= 'Z' || '0' <= c <= '9') {
            lemma_other_letters(c);
        }
    }
    if headers::valid_method(name) {
        assert forall|i: int| 0 <= i < name.len() implies name_letter(#[trigger] name[i]) by {
            assert(headers::token_character(name[i]));
        }
    }
    if forall|i: int| 0 <= i < name.len() ==> name_letter(#[trigger] name[i]) {
        assert forall|i: int| 0 <= i < name.len() implies headers::token_character(
            #[trigger] name[i],
        ) by {
            assert(name_letter(name[i]));
        }
    }
}

/// Every mark that may stand in a name is one of those listed.
proof fn lemma_other_letters(c: char)
    requires
        name_letter(c),
        !('a' <= c <= 'z' || 'A' <= c <= 'Z' || '0' <= c <= '9'),
    ensures
        "!#$%&'*+-.^_`|~"@.contains(c),
{
    reveal_strlit("!#$%&'*+-.^_`|~");
    let others = "!#$%&'*+-.^_`|~"@;
    assert(others[0] == '!' && others[1] == '#' && others[2] == '$' && others[3] == '%');
    assert(others[4] == '&' && others[5] == '\'' && others[6] == '*' && others[7] == '+');
    assert(others[8] == '-' && others[9] == '.' && others[10] == '^' && others[11] == '_');
    assert(others[12] == '`' && others[13] == '|' && others[14] == '~');
}

/// A header value holds no control character but the tab.
pub proof fn law_values_hold_no_control_character(value: Seq<char>)
    ensures
        headers::valid_value(value) <==> forall|i: int|
            0 <= i < value.len() ==> (#[trigger] value[i] == '\t' || !(value[i] < ' ' || value[i]
                == '\u{7f}')),
{
}

/// Lower case changes the letters from `A` to `Z` alone, each to its own, and has nothing
/// left to change.
pub proof fn law_lower_case_is_of_ascii_letters(s: Seq<char>)
    ensures
        text::lowered(s).len() == s.len(),
        forall|i: int|
            0 <= i < s.len() ==> if 'A' <= s[i] <= 'Z' {
                (#[trigger] text::lowered(s)[i]) as int == s[i] as int + 32
            } else {
                text::lowered(s)[i] == s[i]
            },
        text::lowered(text::lowered(s)) == text::lowered(s),
{
    assert(text::lowered(text::lowered(s)) =~= text::lowered(s));
}

/// Declared headers are sent, every one of them and no other: under the name in lower case,
/// with the value that was declared last under it.
#[verifier::spinoff_prover]
pub proof fn law_declared_headers_are_sent(pairs: Seq<(Seq<char>, String)>)
    ensures
        headers::read_headers(pairs) matches Ok(sent) ==> {
            &&& forall|name: Seq<char>| #[trigger]
                sent.contains_key(name) ==> exists|i: int|
                    0 <= i < pairs.len() && text::lowered((#[trigger] pairs[i]).0) == name
            &&& forall|i: int|
                0 <= i < pairs.len() ==> sent.contains_key(
                    text::lowered((#[trigger] pairs[i]).0),
                )
            &&& forall|i: int|
                0 <= i < pairs.len() && (forall|j: int|
                    i < j < pairs.len() ==> text::lowered((#[trigger] pairs[j]).0)
                        != text::lowered(pairs[i].0)) ==> sent[text::lowered(
                    (#[trigger] pairs[i]).0,
                )] == pairs[i].1@
        },
    decreases pairs.len(),
{
    if pairs.len() > 0 {
        let front = pairs.drop_last();
        let last = pairs.len() - 1;
        law_declared_headers_are_sent(front);
        if let Ok(sent) = headers::read_headers(pairs) {
            let before = headers::read_headers(front)->Ok_0;
            assert(sent == before.insert(text::lowered(pairs[last].0), pairs[last].1@));
            assert forall|name: Seq<char>| #[trigger] sent.contains_key(name) implies exists|
                i: int,
            | 0 <= i < pairs.len() && text::lowered((#[trigger] pairs[i]).0) == name by {
                if name == text::lowered(pairs[last].0) {
                    assert(text::lowered(pairs[last].0) == name);
                } else {
                    assert(before.contains_key(name));
                    let i = choose|i: int|
                        0 <= i < front.len() && text::lowered((#[trigger] front[i]).0) == name;
                    assert(text::lowered(pairs[i].0) == name);
                }
            }
            assert forall|i: int| 0 <= i < pairs.len() implies sent.contains_key(
                text::lowered((#[trigger] pairs[i]).0),
            ) by {
                if i < last {
                    assert(front[i] == pairs[i]);
                }
            }
            assert forall|i: int|
                0 <= i < pairs.len() && (forall|j: int|
                    i < j < pairs.len() ==> text::lowered((#[trigger] pairs[j]).0)
                        != text::lowered(pairs[i].0)) implies sent[text::lowered(
                (#[trigger] pairs[i]).0,
            )] == pairs[i].1@ by {
                if i < last {
                    assert(front[i] == pairs[i]);
                    assert(text::lowered(pairs[last].0) != text::lowered(pairs[i].0));
                    assert forall|j: int| i < j < front.len() implies text::lowered(
                        (#[trigger] front[j]).0,
                    ) != text::lowered(front[i].0) by {
                        assert(front[j] == pairs[j]);
                    }
                    assert(before[text::lowered(front[i].0)] == front[i].1@);
                }
            }
        }
    }
}

/// Declared headers are accepted exactly where none is `authorization` in any case, each name
/// is one and each value is one.
pub proof fn law_sound_headers_are_accepted(pairs: Seq<(Seq<char>, String)>)
    ensures
        headers::read_headers(pairs) is Ok <==> forall|i: int|
            0 <= i < pairs.len() ==> {
                &&& text::lowered((#[trigger] pairs[i]).0) != "authorization"@
                &&& headers::valid_name(pairs[i].0)
                &&& headers::valid_value(pairs[i].1@)
            },
    decreases pairs.len(),
{
    reveal_strlit("authorization");
    assert(text::lowered("authorization"@) =~= "authorization"@);
    if pairs.len() > 0 {
        let front = pairs.drop_last();
        let last = pairs.len() - 1;
        law_sound_headers_are_accepted(front);
        if headers::read_headers(pairs) is Ok {
            assert forall|i: int| 0 <= i < pairs.len() implies text::lowered(
                (#[trigger] pairs[i]).0,
            ) != "authorization"@ && headers::valid_name(pairs[i].0) && headers::valid_value(
                pairs[i].1@,
            ) by {
                if i < last {
                    assert(front[i] == pairs[i]);
                }
            }
        } else if headers::read_headers(front) is Err {
            let i = choose|i: int|
                0 <= i < front.len() && !(text::lowered((#[trigger] front[i]).0)
                    != "authorization"@ && headers::valid_name(front[i].0) && headers::valid_value(
                    front[i].1@,
                ));
            assert(pairs[i] == front[i]);
        } else {
            assert(pairs[last] == pairs.last());
        }
    }
}

/// An address is loopback exactly where its first byte is 127, or where it is `::1`.
pub proof fn law_loopback_addresses(bits: u32, wide: u128)
    ensures
        HostAddress::V4(bits).loopback() <==> bits / 0x100_0000 == 127,
        HostAddress::V6(wide).loopback() <==> wide == 1,
{
}

/// A URL is accepted for a transport exactly where it is encrypted, or plain on this machine
/// by the name `localhost` or by a loopback address, and carries neither user information nor
/// a fragment.
pub proof fn law_accepted_endpoints(url: UrlView)
    ensures
        endpoint::http_url_refusal(Ok(url)) is None <==> {
            &&& url.scheme == "https"@ || url.scheme == "http"@ && (url.host == Some("localhost"@)
                || (url.address is Some && url.address->0.loopback()))
            &&& url.username.len() == 0
            &&& url.password is None
            &&& url.fragment is None
        },
{
}

/// A text that is no URL is no endpoint, for the reason that the parser gives.
pub proof fn law_refused_endpoints_tell_why(reason: Seq<char>)
    ensures
        endpoint::http_url_refusal(Err(reason)) == Some(
            ErrorView::Configuration("invalid MCP URL: "@ + reason),
        ),
{
}

/// A planned HTTP transport goes to the declared URL with the declared headers, with the
/// bearer token exactly where one was given, whatever else was declared, and bounds its events
/// by the frame limit.
pub proof fn law_plans_carry_what_was_given(
    config: HttpTransportConfig,
    parsed: Result<UrlView, Seq<char>>,
    bearer: Option<Seq<char>>,
    limits: Limits,
)
    ensures
        client::http_plan(config, parsed, bearer, limits) is Ok <==> endpoint::http_url_refusal(
            parsed,
        ) is None && headers::read_headers(config.headers.pairs()) is Ok,
        client::http_plan(config, parsed, bearer, limits) matches Ok(plan) ==> {
            &&& plan.url == config.url@
            &&& bearer is Some ==> plan.auth_header is Some && plan.auth_header->0 == bearer->0
            &&& bearer is None ==> plan.auth_header is None
            &&& headers::read_headers(config.headers.pairs()) == Ok::<_, ErrorView>(plan.headers)
            &&& plan.max_sse_event_size == limits.max_frame_bytes
            &&& plan.max_concurrent_requests == 16
        },
{
}

/// Whether a token is given changes nothing of a plan but the token.
pub proof fn law_tokens_change_nothing_else(
    config: HttpTransportConfig,
    parsed: Result<UrlView, Seq<char>>,
    a: Option<Seq<char>>,
    b: Option<Seq<char>>,
    limits: Limits,
)
    ensures
        match (
            client::http_plan(config, parsed, a, limits),
            client::http_plan(config, parsed, b, limits),
        ) {
            (Ok(x), Ok(y)) => x.url == y.url && x.headers == y.headers && x.max_sse_event_size
                == y.max_sse_event_size && x.max_concurrent_requests == y.max_concurrent_requests
                && x.auth_header == a && y.auth_header == b,
            (Err(x), Err(y)) => x == y,
            _ => false,
        },
{
}

/// A letter of the alphabet of environment names.
pub open spec fn variable_letter(c: char) -> bool {
    'A' <= c <= 'Z' || '0' <= c <= '9' || c == '_'
}

/// A child is started exactly where its program and directory are from the root and every
/// inherited name is one of uppercase letters, digits and underscores. It gets the declared
/// program, directory and arguments, argument by argument.
pub proof fn law_launches_are_as_declared(
    config: StdioTransportConfig,
    values: Seq<Option<Vec<u8>>>,
)
    ensures
        client::launch_plan(config, values) is Ok <==> {
            &&& config.program@.len() > 0 && config.program@[0] == '/'
            &&& config.cwd@.len() > 0 && config.cwd@[0] == '/'
            &&& forall|i: int|
                0 <= i < config.inherit_env@.len() ==> (#[trigger] config.inherit_env@[i])@.len()
                    > 0 && forall|k: int|
                    0 <= k < config.inherit_env@[i]@.len() ==> variable_letter(
                        #[trigger] config.inherit_env@[i]@[k],
                    )
        },
        client::launch_plan(config, values) matches Ok(plan) ==> {
            &&& plan.program == config.program@
            &&& plan.cwd == config.cwd@
            &&& plan.args.len() == config.args@.len()
            &&& forall|i: int|
                0 <= i < plan.args.len() ==> #[trigger] plan.args[i] == config.args@[i]@
        },
        client::launch_plan(config, values) is Err ==> client::launch_plan(
            config,
            values,
        )->Err_0 is Configuration,
{
    let names = config.inherit_env@;
    let refusals = client::inherited_refusals(names);
    refusal::lemma_first_none(refusals);
    assert forall|i: int| 0 <= i < names.len() implies (refusals[i] is None <==> (
    #[trigger] names[i])@.len() > 0 && forall|k: int|
        0 <= k < names[i]@.len() ==> variable_letter(#[trigger] names[i]@[k])) by {
        let name = names[i]@;
        if bearer::variable_name(name) {
            assert forall|k: int| 0 <= k < name.len() implies variable_letter(
                #[trigger] name[k],
            ) by {
                assert(bearer::variable_character(name[k]));
            }
        }
        if forall|k: int| 0 <= k < name.len() ==> variable_letter(#[trigger] name[k]) {
            assert forall|k: int| 0 <= k < name.len() implies bearer::variable_character(
                #[trigger] name[k],
            ) by {
                assert(variable_letter(name[k]));
            }
        }
    }
    if refusal::first(refusals) is None {
        assert forall|i: int| 0 <= i < names.len() implies (#[trigger] names[i])@.len() > 0
            && forall|k: int|
            0 <= k < names[i]@.len() ==> variable_letter(#[trigger] names[i]@[k]) by {
            assert(refusals[i] is None);
        }
    } else {
        let i = choose|i: int| 0 <= i < refusals.len() && (#[trigger] refusals[i]) is Some;
        assert(names[i]@ == names[i]@);
        lemma_first_is_configuration(refusals);
    }
}

/// A child is refused for the first that is wrong with its declaration: its program, its
/// directory, then the first inherited name that is none.
pub proof fn law_refused_launches_tell_why(config: StdioTransportConfig, i: int)
    ensures
        ({
            let refused = client::launch_refusal(config);
            let names = config.inherit_env@;
            if !(config.program@.len() > 0 && config.program@[0] == '/') {
                refused == Some(ErrorView::Configuration("stdio program must be an absolute path"@))
            } else if !(config.cwd@.len() > 0 && config.cwd@[0] == '/') {
                refused == Some(ErrorView::Configuration("stdio cwd must be an absolute path"@))
            } else {
                0 <= i < names.len() && !bearer::variable_name(names[i]@) && (forall|j: int|
                    0 <= j < i ==> bearer::variable_name((#[trigger] names[j])@)) ==> refused
                    == Some(
                    ErrorView::Configuration(
                        "invalid inherited environment name `"@ + names[i]@ + "`"@,
                    ),
                )
            }
        }),
{
    let names = config.inherit_env@;
    let refusals = client::inherited_refusals(names);
    if 0 <= i < names.len() && !bearer::variable_name(names[i]@) && (forall|j: int|
        0 <= j < i ==> bearer::variable_name((#[trigger] names[j])@)) {
        assert forall|j: int| 0 <= j < i implies (#[trigger] refusals[j]) is None by {
            assert(bearer::variable_name(names[j]@));
        }
        refusal::lemma_first_at(refusals, i);
    }
}

/// Headers are refused for the first pair that is refused, and a pair for what is wrong with
/// it: a credential, a name that is none, a value that is none.
pub proof fn law_refused_headers_tell_why(pairs: Seq<(Seq<char>, String)>, i: int)
    requires
        0 <= i < pairs.len(),
        headers::read_headers(pairs.take(i)) is Ok,
    ensures
        ({
            let name = pairs[i].0;
            let read = headers::read_headers(pairs);
            if text::lowered(name) == "authorization"@ {
                read == Err::<Map<Seq<char>, Seq<char>>, _>(
                    ErrorView::Configuration(
                        "authorization is a credential and cannot appear in connection headers"@,
                    ),
                )
            } else if !headers::valid_name(name) {
                read == Err::<Map<Seq<char>, Seq<char>>, _>(
                    ErrorView::Configuration("invalid HTTP header `"@ + name + "`"@),
                )
            } else if !headers::valid_value(pairs[i].1@) {
                read == Err::<Map<Seq<char>, Seq<char>>, _>(
                    ErrorView::Configuration(
                        "invalid value for HTTP header `"@ + text::lowered(name) + "`"@,
                    ),
                )
            } else {
                headers::read_headers(pairs.take(i + 1)) is Ok
            }
        }),
{
    reveal_strlit("authorization");
    assert(text::lowered("authorization"@) =~= "authorization"@);
    let upto = pairs.take(i + 1);
    assert(upto.drop_last() =~= pairs.take(i));
    assert(upto.last() == pairs[i]);
    if headers::read_headers(upto) is Err {
        lemma_refused_headers(pairs, i + 1);
    }
}

/// What the first pairs are refused for is what all are refused for.
proof fn lemma_refused_headers(pairs: Seq<(Seq<char>, String)>, n: int)
    requires
        0 <= n <= pairs.len(),
        headers::read_headers(pairs.take(n)) is Err,
    ensures
        headers::read_headers(pairs) == headers::read_headers(pairs.take(n)),
    decreases pairs.len() - n,
{
    if n < pairs.len() {
        assert(pairs.take(n + 1).drop_last() =~= pairs.take(n));
        lemma_refused_headers(pairs, n + 1);
    } else {
        assert(pairs.take(n) =~= pairs);
    }
}

/// An endpoint is refused for its protection first and for what it carries next.
pub proof fn law_refused_urls_tell_why(url: UrlView)
    ensures
        match endpoint::http_url_refusal(Ok(url)) {
            Some(error) => {
                ||| !(url.scheme == "https"@ || url.scheme == "http"@ && url.loopback()) && error
                    == ErrorView::Configuration("Streamable HTTP requires HTTPS except on loopback"@)
                ||| (url.scheme == "https"@ || url.scheme == "http"@ && url.loopback()) && error
                    == ErrorView::Configuration("MCP URL cannot contain userinfo or a fragment"@)
            },
            None => true,
        },
{
}

/// Headers of a request are sent on exactly where every value is visible text, and those of a
/// response handed on exactly where every name and every value is one.
pub proof fn law_exchanges_need_sound_headers(
    sent: Seq<(String, Vec<u8>)>,
    received: Seq<(Seq<char>, String)>,
)
    ensures
        exchange::all_visible(sent) <==> forall|i: int|
            0 <= i < sent.len() ==> exchange::visible((#[trigger] sent[i]).1@),
        exchange::sendable(received) <==> forall|i: int|
            0 <= i < received.len() ==> headers::valid_name((#[trigger] received[i]).0)
                && headers::valid_value(received[i].1@),
{
}

/// A method is sent exactly where it is a token.
pub proof fn law_methods_are_sent_where_they_are_tokens(method: Seq<char>)
    ensures
        exchange::method_refusal(method) is None <==> headers::valid_method(method),
        !headers::valid_method(method) ==> exchange::method_refusal(method) == Some(
            ErrorView::Protocol("invalid OAuth HTTP method"@),
        ),
{
}

/// Refusals of inherited names are of the configuration.
proof fn lemma_first_is_configuration(refusals: Seq<Option<ErrorView>>)
    requires
        refusal::first(refusals) is Some,
        forall|i: int|
            0 <= i < refusals.len() && (#[trigger] refusals[i]) is Some ==> refusals[i]->0 is Configuration,
    ensures
        refusal::first(refusals)->0 is Configuration,
    decreases refusals.len(),
{
    if refusals.len() > 0 {
        let front = refusals.drop_last();
        if refusal::first(front) is Some {
            assert forall|i: int|
                0 <= i < front.len() && (
                #[trigger] front[i]) is Some implies front[i]->0 is Configuration by {
                assert(refusals[i] == front[i]);
            }
            lemma_first_is_configuration(front);
        } else {
            assert(refusals[refusals.len() - 1] == refusals.last());
        }
    }
}

/// A child inherits every declared variable that is set, with its value, in the order of the
/// declaration: one more declared name adds its variable at the end where it is set, and
/// nothing where it is not.
pub proof fn law_children_inherit_what_is_set(
    names: Seq<String>,
    values: Seq<Option<Vec<u8>>>,
    name: String,
)
    requires
        names.len() < values.len(),
    ensures
        client::inherited(Seq::empty(), values).len() == 0,
        values[names.len() as int] is None ==> client::inherited(names.push(name), values)
            == client::inherited(names, values),
        values[names.len() as int] is Some ==> client::inherited(names.push(name), values)
            == client::inherited(names, values).push(
            (name@, values[names.len() as int]->0@),
        ),
{
    assert(names.push(name).drop_last() =~= names);
}

/// A name for which no value was looked up counts as not set.
pub proof fn law_unread_variables_are_not_set(
    names: Seq<String>,
    values: Seq<Option<Vec<u8>>>,
    name: String,
)
    requires
        names.len() >= values.len(),
    ensures
        client::inherited(names.push(name), values) == client::inherited(names, values),
{
    assert(names.push(name).drop_last() =~= names);
}

/// A child's variables are those that its declaration has it inherit.
pub proof fn law_launches_set_the_inherited_variables(
    config: StdioTransportConfig,
    values: Seq<Option<Vec<u8>>>,
    i: int,
)
    requires
        0 <= i < config.inherit_env@.len(),
        i < values.len(),
        values[i] is Some,
    ensures
        client::launch_plan(config, values) matches Ok(plan) ==> exists|k: int|
            0 <= k < plan.environment.len() && (#[trigger] plan.environment[k]).0
                == config.inherit_env@[i]@ && plan.environment[k].1 == values[i]->0@,
{
    lemma_set_is_inherited(config.inherit_env@, values, i);
    if let Ok(plan) = client::launch_plan(config, values) {
        let set = client::inherited(config.inherit_env@, values);
        let k = choose|k: int|
            0 <= k < set.len() && (#[trigger] set[k]).0 == config.inherit_env@[i]@ && set[k].1
                == values[i]->0@;
        assert(plan.environment[k] == set[k]);
    }
}

/// A declared variable that is set is inherited.
proof fn lemma_set_is_inherited(names: Seq<String>, values: Seq<Option<Vec<u8>>>, i: int)
    requires
        0 <= i < names.len(),
        i < values.len(),
        values[i] is Some,
    ensures
        exists|k: int|
            0 <= k < client::inherited(names, values).len() && (#[trigger] client::inherited(
                names,
                values,
            )[k]).0 == names[i]@ && client::inherited(names, values)[k].1 == values[i]->0@,
    decreases names.len(),
{
    let front = names.drop_last();
    let whole = client::inherited(names, values);
    let part = client::inherited(front, values);
    if i < front.len() {
        lemma_set_is_inherited(front, values, i);
        let k = choose|k: int|
            0 <= k < part.len() && (#[trigger] part[k]).0 == front[i]@ && part[k].1
                == values[i]->0@;
        assert(whole[k] == part[k]);
    } else {
        assert(whole[part.len() as int] == (names[i]@, values[i]->0@));
    }
}

/// A failed negotiation for want of authorization asks for the scope of its challenge; every
/// other one is a failure of the transport, told apart by whether time ran out.
pub proof fn law_negotiation_failures_are_told_apart(id: Seq<char>, challenge: Option<String>)
    ensures
        ({
            let failure = NegotiationFailure::AuthorizationRequired { challenge };
            match client::negotiation_report(id, failure) {
                ErrorView::AuthorizationRequired { connection, scope } => {
                    &&& connection == id
                    &&& challenge is None ==> scope is None
                    &&& challenge is Some ==> scope == challenge::scope_asked(challenge->0@)
                },
                _ => false,
            }
        }),
        client::negotiation_report(id, NegotiationFailure::TimedOut) == ErrorView::Transport(
            "MCP lifecycle negotiation timed out"@,
        ),
        client::negotiation_report(id, NegotiationFailure::Other) == ErrorView::Transport(
            "MCP lifecycle negotiation failed"@,
        ),
{
}

/// A failed request is reported with the first scope that its causes name, unless a cause
/// before it only asks for authorization.
pub proof fn law_named_scopes_are_reported(
    causes: Seq<Cause>,
    class: FailureClass,
    id: Seq<char>,
    i: int,
)
    requires
        0 <= i < causes.len(),
        forall|j: int|
            0 <= j < i ==> (#[trigger] causes[j]) is Other || (causes[j] matches
                Cause::InsufficientScope { required_scope: None }),
    ensures
        causes[i] matches Cause::InsufficientScope { required_scope: Some(scope) }
            ==> client::service_report(causes, class, id) == (ErrorView::AuthorizationRequired {
            connection: id,
            scope: Some(scope@),
        }),
        causes[i] is AuthorizationRequired ==> client::service_report(causes, class, id) == (
        ErrorView::AuthorizationRequired { connection: id, scope: None }),
    decreases i,
{
    if i > 0 {
        let rest = causes.skip(1);
        assert forall|j: int| 0 <= j < i - 1 implies (#[trigger] rest[j]) is Other || (rest[j]
            matches Cause::InsufficientScope { required_scope: None }) by {
            assert(rest[j] == causes[j + 1]);
        }
        assert(causes[0] is Other || (causes[0] matches Cause::InsufficientScope {
            required_scope: None,
        }));
        law_named_scopes_are_reported(rest, class, id, i - 1);
        assert(rest[i - 1] == causes[i]);
        assert(client::first_asked(causes) == client::first_asked(rest));
    }
}

/// A failed request whose causes only find the scope insufficient is reported as a wanted
/// authorization without a scope.
pub proof fn law_unnamed_scopes_are_reported(
    causes: Seq<Cause>,
    class: FailureClass,
    id: Seq<char>,
    i: int,
)
    requires
        0 <= i < causes.len(),
        causes[i] matches Cause::InsufficientScope { required_scope: None },
        forall|j: int|
            0 <= j < causes.len() ==> (#[trigger] causes[j]) is Other || (causes[j] matches
                Cause::InsufficientScope { required_scope: None }),
    ensures
        client::service_report(causes, class, id) == (ErrorView::AuthorizationRequired {
            connection: id,
            scope: None,
        }),
{
    lemma_nothing_named(causes);
    assert(client::insufficient(causes[i]));
}

/// A failed request whose causes ask for no authorization is reported by its class.
pub proof fn law_other_failures_are_reported_by_class(
    causes: Seq<Cause>,
    class: FailureClass,
    id: Seq<char>,
)
    requires
        forall|j: int| 0 <= j < causes.len() ==> (#[trigger] causes[j]) is Other,
    ensures
        client::service_report(causes, class, id) == ErrorView::Transport(
            match class {
                FailureClass::Cancelled => "request cancelled"@,
                FailureClass::TimedOut => "request timed out"@,
                FailureClass::TransportClosed => "transport closed"@,
                FailureClass::Other => "MCP request failed"@,
            },
        ),
{
    lemma_nothing_named(causes);
}

/// Causes that name no authorization ask for none by name.
proof fn lemma_nothing_named(causes: Seq<Cause>)
    requires
        forall|j: int|
            0 <= j < causes.len() ==> (#[trigger] causes[j]) is Other || (causes[j] matches
                Cause::InsufficientScope { required_scope: None }),
    ensures
        client::first_asked(causes) is None,
    decreases causes.len(),
{
    if causes.len() > 0 {
        let rest = causes.skip(1);
        assert forall|j: int| 0 <= j < rest.len() implies (#[trigger] rest[j]) is Other || (rest[j]
            matches Cause::InsufficientScope { required_scope: None }) by {
            assert(rest[j] == causes[j + 1]);
        }
        lemma_nothing_named(rest);
        assert(causes[0] is Other || (causes[0] matches Cause::InsufficientScope {
            required_scope: None,
        }));
    }
}

/// A connection is named by one to sixty-four lowercase letters, digits and underscores.
pub proof fn law_connection_names(name: Seq<char>)
    ensures
        identity::connection_name(name) <==> 0 < name.len() <= 64 && forall|i: int|
            0 <= i < name.len() ==> ('a' <= #[trigger] name[i] <= 'z' || '0' <= name[i] <= '9'
                || name[i] == '_'),
{
    if identity::connection_name(name) {
        assert forall|i: int| 0 <= i < name.len() implies ('a' <= #[trigger] name[i] <= 'z' || '0'
            <= name[i] <= '9' || name[i] == '_') by {
            assert(identity::id_character(name[i]));
        }
    }
}

/// Headers of an exchange are taken over where their values are visible text, each under its
/// name with the value that came last under it, and no other.
pub proof fn law_exchanged_headers_are_taken_over(pairs: Seq<(String, Vec<u8>)>)
    ensures
        forall|name: Seq<char>| #[trigger]
            exchange::text_headers(pairs).contains_key(name) ==> exists|i: int|
                0 <= i < pairs.len() && (#[trigger] pairs[i]).0@ == name && exchange::visible(
                    pairs[i].1@,
                ),
        forall|i: int|
            0 <= i < pairs.len() && exchange::visible((#[trigger] pairs[i]).1@)
                ==> exchange::text_headers(pairs).contains_key(pairs[i].0@),
        forall|i: int|
            0 <= i < pairs.len() && exchange::visible((#[trigger] pairs[i]).1@) && (forall|j: int|
                i < j < pairs.len() && exchange::visible((#[trigger] pairs[j]).1@) ==> pairs[j].0@
                    != pairs[i].0@) ==> exchange::text_headers(pairs)[pairs[i].0@]
                == exchange::ascii_text(pairs[i].1@),
    decreases pairs.len(),
{
    let whole = exchange::text_headers(pairs);
    if pairs.len() > 0 {
        let front = pairs.drop_last();
        let last = pairs.len() - 1;
        let before = exchange::text_headers(front);
        law_exchanged_headers_are_taken_over(front);
        assert forall|name: Seq<char>| #[trigger] whole.contains_key(name) implies exists|i: int|
            0 <= i < pairs.len() && (#[trigger] pairs[i]).0@ == name && exchange::visible(
                pairs[i].1@,
            ) by {
            if exchange::visible(pairs[last].1@) && pairs[last].0@ == name {
                assert(pairs[last].0@ == name);
            } else {
                assert(before.contains_key(name));
                let i = choose|i: int|
                    0 <= i < front.len() && (#[trigger] front[i]).0@ == name && exchange::visible(
                        front[i].1@,
                    );
                assert(pairs[i].0@ == name);
            }
        }
        assert forall|i: int|
            0 <= i < pairs.len() && exchange::visible(
                (#[trigger] pairs[i]).1@,
            ) implies whole.contains_key(pairs[i].0@) by {
            if i < last {
                assert(front[i] == pairs[i]);
            }
        }
        assert forall|i: int|
            0 <= i < pairs.len() && exchange::visible((#[trigger] pairs[i]).1@) && (forall|j: int|
                i < j < pairs.len() && exchange::visible((#[trigger] pairs[j]).1@) ==> pairs[j].0@
                    != pairs[i].0@) implies whole[pairs[i].0@] == exchange::ascii_text(
            pairs[i].1@,
        ) by {
            if i < last {
                assert(front[i] == pairs[i]);
                assert forall|j: int|
                    i < j < front.len() && exchange::visible(
                        (#[trigger] front[j]).1@,
                    ) implies front[j].0@ != front[i].0@ by {
                    assert(front[j] == pairs[j]);
                }
            }
        }
    }
}

/// Visible text is printable ASCII and tabs, and each byte is the character of its number.
pub proof fn law_visible_text_is_ascii(value: Seq<u8>)
    ensures
        exchange::visible(value) <==> forall|i: int|
            0 <= i < value.len() ==> (#[trigger] value[i] == 9 || 32 <= value[i] < 127),
        exchange::ascii_text(value).len() == value.len(),
        forall|i: int|
            0 <= i < value.len() ==> (#[trigger] exchange::ascii_text(value)[i]) as int
                == value[i] as int,
{
    if exchange::visible(value) {
        assert forall|i: int| 0 <= i < value.len() implies (#[trigger] value[i] == 9 || 32
            <= value[i] < 127) by {}
    }
}

/// The contents of URLs and plans are those of their fields, each of them.
pub proof fn law_transport_contents_are_their_fields(
    url: UrlParts,
    http: HttpPlan,
    launch: LaunchPlan,
    key: Seq<char>,
    i: int,
)
    ensures
        url@.scheme == url.scheme@,
        url@.host is Some <==> url.host is Some,
        url.host is Some ==> url@.host->0 == url.host->0@,
        url@.address == url.address,
        url@.port == url.port,
        url@.username == url.username@,
        url@.password is Some <==> url.password is Some,
        url@.fragment is Some <==> url.fragment is Some,
        http@.url == http.url@,
        http@.headers.contains_key(key) <==> http.headers@.contains_key(key),
        http.headers@.contains_key(key) ==> http@.headers[key] == http.headers@[key]@,
        http@.auth_header is Some <==> http.auth_header is Some,
        http.auth_header is Some ==> http@.auth_header->0 == http.auth_header->0@,
        http@.max_sse_event_size == http.max_sse_event_size,
        http@.max_concurrent_requests == http.max_concurrent_requests,
        launch@.program == launch.program@,
        launch@.cwd == launch.cwd@,
        launch@.args.len() == launch.args@.len(),
        0 <= i < launch.args@.len() ==> launch@.args[i] == launch.args@[i]@,
        launch@.environment.len() == launch.environment@.len(),
        0 <= i < launch.environment@.len() ==> launch@.environment[i] == (
            launch.environment@[i].0@,
            launch.environment@[i].1@,
        ),
{
}

} // verus!
