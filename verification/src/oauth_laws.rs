//! What authorization flows, callbacks and local files owe to what was configured.

use vstd::prelude::*;
use vstd::utf8::*;

use crate::callback;
use crate::callback::{CallbackEndpoint, CallbackView};
use crate::challenge;
use crate::custody;
use crate::custody::{ActionView, FileRead, FileRemoval};
use crate::endpoint::UrlView;
use crate::error::ErrorView;
use crate::oauth;
use crate::oauth::{AuthFailure, AuthorizationPlan, Claim, OAuthConfigView};
use crate::outside;
use crate::paths;
use crate::paths::LocalPaths;
use crate::text;
use crate::text::Class;
use crate::text_laws;

verus! {

/// Whether a URL is encrypted, or plain on this machine.
pub open spec fn guarded(url: UrlView) -> bool {
    url.scheme == "https"@ || url.scheme == "http"@ && (url.host == Some("localhost"@) || (
    url.address is Some && url.address->0.loopback()))
}

/// An authorization configuration is accepted exactly where its resource is encrypted or on
/// this machine, its redirect has no fragment, and the client is registered or has a name to
/// register under.
pub proof fn law_accepted_configurations(
    config: OAuthConfigView,
    resource: Result<UrlView, Seq<char>>,
    redirect: Result<UrlView, Seq<char>>,
)
    ensures
        oauth::config_refusal(config, resource, redirect) is None <==> {
            &&& resource is Ok
            &&& guarded(resource->Ok_0)
            &&& redirect is Ok
            &&& redirect->Ok_0.fragment is None
            &&& config.client_id is Some || config.client_metadata_url is Some
                || config.client_name.len() > 0
        },
        oauth::config_refusal(config, resource, redirect) matches Some(
            error,
        ) ==> error is Configuration,
        resource matches Err(reason) ==> oauth::config_refusal(config, resource, redirect) == Some(
            ErrorView::Configuration("invalid OAuth resource: "@ + reason),
        ),
        resource is Ok && !guarded(resource->Ok_0) ==> oauth::config_refusal(
            config,
            resource,
            redirect,
        ) == Some(
            ErrorView::Configuration("OAuth resource requires HTTPS except on loopback"@),
        ),
        resource is Ok && guarded(resource->Ok_0) && redirect is Err ==> oauth::config_refusal(
            config,
            resource,
            redirect,
        ) == Some(ErrorView::Configuration("invalid OAuth redirect: "@ + redirect->Err_0)),
        resource is Ok && guarded(resource->Ok_0) && redirect is Ok
            && redirect->Ok_0.fragment is Some ==> oauth::config_refusal(
            config,
            resource,
            redirect,
        ) == Some(ErrorView::Configuration("OAuth redirect cannot contain a fragment"@)),
{
}

/// Stored credentials are taken for absent where there are none, and refused where they cannot
/// be read.
pub proof fn law_unreadable_credentials_are_refused<T>(resource: Seq<char>)
    ensures
        oauth::claimed::<T>(resource, None) == Ok::<_, Seq<char>>(Claim::<T>::Absent),
        oauth::claimed::<T>(resource, Some(None)) is Err,
{
}

/// A failed authorization asks for a new one where it was wanted, refused or not enough, with
/// the scope that was named, and is a failure of the transport otherwise.
pub proof fn law_authorization_failures_are_told_apart(failure: AuthFailure)
    ensures
        match oauth::auth_report(failure) {
            ErrorView::AuthorizationRequired { connection, scope } => {
                &&& connection == "oauth"@
                &&& failure !is Other
                &&& scope is Some <==> failure is InsufficientScope
                &&& failure matches AuthFailure::InsufficientScope { required_scope } ==> scope
                    == Some(required_scope@)
            },
            ErrorView::Transport(message) => failure is Other && message
                == "OAuth operation failed"@,
            _ => false,
        },
{
}

/// A token is asked for exactly where credentials are stored.
pub proof fn law_tokens_need_stored_credentials(present: Result<bool, AuthFailure>)
    ensures
        match oauth::stored_refusal(present) {
            None => present == Ok::<_, AuthFailure>(true),
            Some(error) => match present {
                Ok(stored) => !stored && error == (ErrorView::AuthorizationRequired {
                    connection: "oauth"@,
                    scope: None,
                }),
                Err(failure) => error == oauth::auth_report(failure),
            },
        },
{
}

/// A flow is requested with every setting of its configuration, and with the secret and the
/// challenge exactly where there are any.
pub proof fn law_flows_are_requested_as_configured(
    config: OAuthConfigView,
    client_secret: Option<Seq<char>>,
    challenge: Option<Seq<char>>,
)
    ensures
        ({
            let plan = oauth::authorization_plan(config, client_secret, challenge);
            &&& plan.redirect_uri == config.redirect_uri
            &&& plan.client_name == config.client_name
            &&& plan.application_type == config.application_type
            &&& plan.scopes == config.scopes
            &&& plan.preregistered_client == config.client_id
            &&& plan.client_metadata_url == config.client_metadata_url
            &&& client_secret is Some ==> plan.client_secret == client_secret
            &&& client_secret is None ==> plan.client_secret is None
            &&& challenge is Some ==> plan.challenge == challenge
            &&& challenge is None ==> plan.challenge is None
        }),
{
}

/// A token that was issued is the token, and a failure to issue one is reported as what it is.
pub proof fn law_issued_tokens_are_handed_on(token: String, failure: AuthFailure)
    ensures
        oauth::issued_token(Ok(token)) == Ok::<_, ErrorView>(token@),
        oauth::issued_token(Err(failure)) == Err::<Seq<char>, _>(oauth::auth_report(failure)),
{
}

/// A state that was stored comes back, one that cannot be read is refused, and where there is
/// none nothing comes back.
pub proof fn law_stored_states_come_back<T>(state: T)
    ensures
        oauth::restored(Some(Some(state))) == Ok::<_, Seq<char>>(Some(state)),
        oauth::restored::<T>(Some(None)) is Err,
        oauth::restored::<T>(None) == Ok::<_, Seq<char>>(None::<T>),
{
}

/// A callback is awaited exactly where the redirect is plain HTTP to a loopback address with a
/// port, and then at that host, address and port.
pub proof fn law_callbacks_are_awaited_at_the_redirect(url: UrlView)
    ensures
        match callback::callback_endpoint(Ok(url)) {
            Ok(endpoint) => {
                &&& url.scheme == "http"@
                &&& url.host == Some(endpoint.host)
                &&& url.address == Some(endpoint.address)
                &&& endpoint.address.loopback()
                &&& url.port == Some(endpoint.port)
            },
            Err(error) => error == ErrorView::Configuration(
                if url.scheme != "http"@ {
                    "standalone login requires an HTTP loopback redirect"@
                } else if url.host is None {
                    "OAuth redirect has no host"@
                } else if url.address is None {
                    "OAuth redirect host must be a loopback IP"@
                } else if !url.address->0.loopback() {
                    "OAuth redirect host must be loopback"@
                } else {
                    "OAuth redirect requires an explicit port"@
                },
            ) && !(url.scheme == "http"@ && url.host is Some && url.address is Some
                && url.address->0.loopback() && url.port is Some),
        },
{
}

/// A redirect that is no URL awaits no callback.
pub proof fn law_no_callback_without_a_redirect(reason: Seq<char>)
    ensures
        callback::callback_endpoint(Err(reason)) == Err::<CallbackView, _>(
            ErrorView::Configuration("invalid OAuth redirect: "@ + reason),
        ),
{
}

/// Whether a text is a word: not empty, and without white space.
pub open spec fn word(s: Seq<char>) -> bool {
    s.len() > 0 && forall|i: int| 0 <= i < s.len() ==> !text::white_space(#[trigger] s[i])
}

/// A callback is the target of its request line, whole, at the host and port that it was
/// awaited at, whatever follows in the request.
pub proof fn law_callbacks_are_the_requested_target(
    endpoint: CallbackView,
    method: Seq<char>,
    target: Seq<char>,
    rest: Seq<char>,
)
    requires
        word(method),
        word(target),
    ensures
        callback::callback_url(
            endpoint,
            encode_utf8(method + seq![' '] + target + seq![' '] + rest),
        ) == Ok::<_, ErrorView>(
            "http://"@ + endpoint.host + ":"@ + text::decimal(endpoint.port as nat) + target,
        ),
{
    let whole = method + seq![' '] + target + seq![' '] + rest;
    encode_utf8_valid_utf8(whole);
    encode_utf8_decode_utf8(whole);
    let head = method.len() + 1 + target.len() + 1;
    let n = text::position(rest, '\n');
    text::lemma_leading_bounds(rest, Class::Except('\n'));
    assert forall|i: int| 0 <= i < head + n implies Class::Except('\n').holds(
        #[trigger] whole[i],
    ) by {
        if i < method.len() {
            assert(whole[i] == method[i]);
        } else if method.len() < i < method.len() + 1 + target.len() {
            assert(whole[i] == target[i - method.len() - 1]);
        } else if i >= head {
            assert(whole[i] == rest[i - head]);
        }
    }
    if n < rest.len() {
        assert(whole[head + n] == rest[n]);
    }
    text::lemma_leading(whole, Class::Except('\n'), head + n);
    let line = callback::first_line(whole);
    assert(line =~= method + seq![' '] + target + seq![' '] + rest.take(n));
    lemma_second_word(method, target, rest.take(n));
}

/// The second word of a line is its second word.
proof fn lemma_second_word(first: Seq<char>, second: Seq<char>, rest: Seq<char>)
    requires
        word(first),
        word(second),
    ensures
        callback::second_word(first + seq![' '] + second + seq![' '] + rest) == Some(second),
{
    let line = first + seq![' '] + second + seq![' '] + rest;
    assert(line[0] == first[0]);
    text::lemma_leading(line, Class::Space, 0);
    assert(line.skip(0) =~= line);
    assert forall|i: int| 0 <= i < first.len() implies Class::Solid.holds(#[trigger] line[i]) by {
        assert(line[i] == first[i]);
    }
    assert(line[first.len() as int] == ' ');
    text::lemma_leading(line, Class::Solid, first.len() as int);
    let after = line.skip(first.len() as int);
    assert(after[0] == ' ');
    assert(after[1] == second[0]);
    text::lemma_leading(after, Class::Space, 1);
    let tail = after.skip(1);
    assert(tail =~= second + seq![' '] + rest);
    assert forall|i: int| 0 <= i < second.len() implies Class::Solid.holds(#[trigger] tail[i]) by {
        assert(tail[i] == second[i]);
    }
    assert(tail[second.len() as int] == ' ');
    text::lemma_leading(tail, Class::Solid, second.len() as int);
    assert(tail.take(second.len() as int) =~= second);
}

/// A request without a target is refused.
pub proof fn law_callbacks_need_a_target(endpoint: CallbackView, method: Seq<char>, rest: Seq<char>)
    requires
        word(method),
        rest.len() > 0 ==> rest[0] == '\n',
    ensures
        callback::callback_url(endpoint, encode_utf8(method + rest)) == Err::<Seq<char>, _>(
            ErrorView::Protocol("OAuth callback request is malformed"@),
        ),
{
    let whole = method + rest;
    encode_utf8_valid_utf8(whole);
    encode_utf8_decode_utf8(whole);
    assert forall|i: int| 0 <= i < method.len() implies Class::Except('\n').holds(
        #[trigger] whole[i],
    ) by {
        assert(whole[i] == method[i]);
    }
    if rest.len() > 0 {
        assert(whole[method.len() as int] == rest[0]);
    }
    text::lemma_leading(whole, Class::Except('\n'), method.len() as int);
    assert(callback::first_line(whole) =~= method);
    text::lemma_leading(method, Class::Space, 0);
    assert(method.skip(0) =~= method);
    text::lemma_leading(method, Class::Solid, method.len() as int);
    let after = method.skip(method.len() as int);
    assert(after =~= Seq::<char>::empty());
    text::lemma_leading(after, Class::Space, 0);
    assert(after.skip(0) =~= after);
    text::lemma_leading(after, Class::Solid, 0);
}

/// A request that is no text is refused.
pub proof fn law_callbacks_are_text(endpoint: CallbackView, request: Seq<u8>)
    requires
        !valid_utf8(request),
    ensures
        callback::callback_url(endpoint, request) == Err::<Seq<char>, _>(
            ErrorView::Protocol("OAuth callback is not UTF-8"@),
        ),
{
}

/// A challenge that holds no equals sign asks for no scope.
pub proof fn law_bare_challenges_ask_for_no_scope(challenge: Seq<char>)
    requires
        !challenge.contains('='),
    ensures
        challenge::scope_asked(challenge) is None,
{
    lemma_no_scope_from(challenge, 0);
}

/// An empty parameter before others asks for nothing and hides nothing.
pub proof fn law_empty_parameters_are_skipped(rest: Seq<char>)
    ensures
        challenge::scope_asked(seq![','] + rest) == challenge::scope_asked(rest),
{
    let head = seq![','];
    let whole = head + rest;
    assert(whole[0] == ',');
    assert(challenge::parameter_end(whole, 0, false, false) == 0);
    let nothing = whole.subrange(0, 0);
    text::lemma_leading(nothing, Class::Space, 0);
    assert(text::trimmed(nothing, Class::Space).len() == 0);
    challenge::lemma_scope_from(head, rest, 0);
}

/// Quotes that a backslash stands before do not end what is quoted, and neither does a comma
/// after them.
pub proof fn law_escaped_quotes_stay_quoted(
    challenge: Seq<char>,
    open: int,
    escape: int,
    close: int,
)
    requires
        0 <= open < escape,
        escape + 1 < close < challenge.len(),
        challenge[open] == '"',
        challenge[escape] == '\\',
        challenge[close] == '"',
        forall|k: int|
            open < k < close && k != escape && k != escape + 1 ==> (#[trigger] challenge[k]) != '"'
                && challenge[k] != '\\',
    ensures
        challenge::parameter_end(challenge, open, false, false) == challenge::parameter_end(
            challenge,
            close + 1,
            false,
            false,
        ),
{
    challenge::lemma_plain_run(challenge, open + 1, escape, true);
    assert(challenge::parameter_end(challenge, open, false, false) == challenge::parameter_end(
        challenge,
        open + 1,
        true,
        false,
    ));
    assert(challenge::parameter_end(challenge, escape, true, false) == challenge::parameter_end(
        challenge,
        escape + 1,
        true,
        true,
    ));
    assert(challenge::parameter_end(challenge, escape + 1, true, true)
        == challenge::parameter_end(challenge, escape + 2, true, false));
    challenge::lemma_plain_run(challenge, escape + 2, close, true);
    assert(challenge::parameter_end(challenge, close, true, false) == challenge::parameter_end(
        challenge,
        close + 1,
        false,
        false,
    ));
}

/// From no position on does a challenge without an equals sign ask for a scope.
proof fn lemma_no_scope_from(challenge: Seq<char>, from: int)
    requires
        0 <= from <= challenge.len(),
        !challenge.contains('='),
    ensures
        challenge::scope_from(challenge, from) is None,
    decreases challenge.len() - from,
{
    let to = challenge::parameter_end(challenge, from, false, false);
    lemma_end_bounds(challenge, from, false, false);
    let part = challenge.subrange(from, to);
    let shown = text::trimmed(part, Class::Space);
    text_laws::law_trimming_cuts_the_ends(part, Class::Space);
    assert forall|i: int| 0 <= i < shown.len() implies Class::Except('=').holds(
        #[trigger] shown[i],
    ) by {
        let (a, b) = choose|a: int, b: int|
            #![trigger part.subrange(a, b)]
            0 <= a <= b <= part.len() && shown == part.subrange(a, b);
        assert(shown[i] == part[a + i]);
        assert(part[a + i] == challenge[from + a + i]);
    }
    text::lemma_leading(shown, Class::Except('='), shown.len() as int);
    if to < challenge.len() {
        lemma_no_scope_from(challenge, to + 1);
    }
}

/// A parameter ends after it starts.
proof fn lemma_end_bounds(challenge: Seq<char>, i: int, quoted: bool, escaped: bool)
    requires
        0 <= i <= challenge.len(),
    ensures
        i <= challenge::parameter_end(challenge, i, quoted, escaped) <= challenge.len(),
    decreases challenge.len() - i,
{
    if i < challenge.len() {
        lemma_end_bounds(
            challenge,
            i + 1,
            if quoted {
                escaped || challenge[i] != '"'
            } else {
                challenge[i] == '"'
            },
            quoted && !escaped && challenge[i] == '\\',
        );
    }
}

/// A scope that a challenge names without quotes comes back as it is, whatever parameters
/// follow.
pub proof fn law_bare_scopes_come_back(scheme: Seq<char>, scope: Seq<char>, rest: Seq<char>)
    requires
        !scheme.contains(',') && !scheme.contains('=') && !scheme.contains('"'),
        scheme.len() > 0 ==> !text::white_space(scheme[0]) && text::white_space(scheme.last()),
        word(scope),
        !scope.contains(',') && !scope.contains('"'),
    ensures
        challenge::scope_asked(scheme + "scope="@ + scope) == Some(scope),
        challenge::scope_asked(scheme + "scope="@ + scope + seq![','] + rest) == Some(scope),
{
    reveal_strlit("scope=");
    let one = scheme + "scope="@ + scope;
    let more = one + seq![','] + rest;
    let h = scheme.len() as int;
    let n = one.len() as int;
    assert forall|i: int| 0 <= i < n implies (#[trigger] one[i]) != '"' && one[i] != ',' by {
        if i < h {
            assert(one[i] == scheme[i]);
        } else if i >= h + 6 {
            assert(one[i] == scope[i - h - 6]);
        }
    }
    challenge::lemma_plain_run(one, 0, n, false);
    assert(one.subrange(0, n) =~= one);
    assert forall|i: int| 0 <= i < n implies (#[trigger] more[i]) != '"' && more[i] != ',' by {
        assert(more[i] == one[i]);
    }
    challenge::lemma_plain_run(more, 0, n, false);
    assert(more[n] == ',');
    assert(challenge::parameter_end(more, n, false, false) == n);
    assert(more.subrange(0, n) =~= one);
    lemma_bare_scope(scheme, scope);
}

/// A parameter that names a scope without quotes names it.
proof fn lemma_bare_scope(scheme: Seq<char>, scope: Seq<char>)
    requires
        !scheme.contains('='),
        scheme.len() > 0 ==> !text::white_space(scheme[0]) && text::white_space(scheme.last()),
        word(scope),
        !scope.contains('"'),
    ensures
        challenge::parameter_scope(scheme + "scope="@ + scope) == Some(scope),
{
    reveal_strlit("scope=");
    reveal_strlit("scope");
    let h = scheme.len() as int;
    let whole = scheme + "scope="@ + scope;
    let n = whole.len() as int;
    if h > 0 {
        assert(whole[0] == scheme[0]);
    }
    assert(whole.last() == scope.last());
    assert(scope.last() == scope[scope.len() - 1]);
    text::lemma_leading(whole, Class::Space, 0);
    assert(whole.skip(0) =~= whole);
    text::lemma_trailing(whole, Class::Space, 0);
    assert(whole.take(n) =~= whole);
    assert forall|i: int| 0 <= i < h + 5 implies Class::Except('=').holds(#[trigger] whole[i]) by {
        if i < h {
            assert(whole[i] == scheme[i]);
        }
    }
    text::lemma_leading(whole, Class::Except('='), h + 5);
    let name = whole.take(h + 5);
    assert(name =~= scheme + "scope"@);
    text::lemma_leading(name, Class::Space, 0);
    assert(name.skip(0) =~= name);
    text::lemma_trailing(name, Class::Space, 0);
    assert(name.take(h + 5) =~= name);
    if h > 0 {
        assert(name[h - 1] == scheme.last());
    }
    text::lemma_trailing(name, Class::Solid, 5);
    assert(name.skip(h) =~= "scope"@);
    let value = whole.skip(h + 6);
    assert(value =~= scope);
    text::lemma_leading(value, Class::Space, 0);
    assert(value.skip(0) =~= value);
    text::lemma_trailing(value, Class::Space, 0);
    assert(value.take(value.len() as int) =~= value);
    assert(scope[0] != '"' && scope[scope.len() - 1] != '"');
    text::lemma_leading(scope, Class::Only('"'), 0);
    assert(scope.skip(0) =~= scope);
    text::lemma_trailing(scope, Class::Only('"'), 0);
    assert(scope.take(scope.len() as int) =~= scope);
}

/// A part that is not from the root is seen below its base, one slash between them; one that
/// is from the root is itself.
pub proof fn law_paths_are_joined_by_one_slash(base: Seq<u8>, part: Seq<u8>)
    ensures
        part.len() > 0 && part[0] == 0x2f ==> paths::joined_path(base, part) == part,
        !(part.len() > 0 && part[0] == 0x2f) && base.len() > 0 && base.last() != 0x2f
            ==> paths::joined_path(base, part) == base + seq![0x2fu8] + part,
        !(part.len() > 0 && part[0] == 0x2f) && (base.len() == 0 || base.last() == 0x2f)
            ==> paths::joined_path(base, part) == base + part,
{
    if base.len() > 0 && base.last() != 0x2f && !(part.len() > 0 && part[0] == 0x2f) {
        assert(paths::joined_path(base, part) =~= base + seq![0x2fu8] + part);
    }
}

/// A path from the root.
pub open spec fn rooted(path: Seq<u8>) -> bool {
    path.len() > 0 && path[0] == 0x2f
}

/// A path that has to be from the root and is not is refused by what it is for.
pub proof fn law_relative_paths_are_refused_by_name(kind: Seq<char>)
    ensures
        paths::not_absolute(kind) == ErrorView::Configuration(kind + " path must be absolute"@),
{
}

/// Local paths are where the environment puts them: the registry below the configuration root
/// and the state below the state root, each the variable's own or, where it is not set, the
/// conventional one below the home directory.
pub proof fn law_local_paths_follow_the_environment(
    config_home: Option<Seq<u8>>,
    state_home: Option<Seq<u8>>,
    home: Option<Seq<u8>>,
)
    ensures
        match paths::conventional_paths(config_home, state_home, home) {
            Ok(found) => {
                &&& config_home matches Some(root) ==> root.len() > 0 && root[0] == 0x2f
                    && found.registry == paths::joined_path(root, encode_utf8("b10x/mcp.toml"@))
                &&& config_home is None ==> home is Some && home->0.len() > 0 && home->0[0] == 0x2f
                    && found.registry == paths::joined_path(
                    paths::joined_path(home->0, encode_utf8(".config"@)),
                    encode_utf8("b10x/mcp.toml"@),
                )
                &&& state_home matches Some(root) ==> root.len() > 0 && root[0] == 0x2f
                    && found.state == paths::joined_path(root, encode_utf8("b10x/mcp"@))
                &&& state_home is None ==> home is Some && home->0.len() > 0 && home->0[0] == 0x2f
                    && found.state == paths::joined_path(
                    paths::joined_path(home->0, encode_utf8(".local/state"@)),
                    encode_utf8("b10x/mcp"@),
                )
            },
            Err(error) => error == ErrorView::Configuration(
                if config_home is Some && !rooted(config_home->0) {
                    "XDG_CONFIG_HOME"@ + " path must be absolute"@
                } else if config_home is None && home is None {
                    "XDG_CONFIG_HOME"@ + " and HOME are both absent"@
                } else if config_home is None && !rooted(home->0) {
                    "HOME"@ + " path must be absolute"@
                } else if state_home is Some {
                    "XDG_STATE_HOME"@ + " path must be absolute"@
                } else if home is None {
                    "XDG_STATE_HOME"@ + " and HOME are both absent"@
                } else {
                    "HOME"@ + " path must be absolute"@
                },
            ) && ({
                ||| config_home is Some && !rooted(config_home->0)
                ||| state_home is Some && !rooted(state_home->0)
                ||| (config_home is None || state_home is None) && !(home is Some && rooted(
                    home->0,
                ))
            }),
        },
{
}

/// Credentials are kept below `oauth` in the state root, one file for each connection, and
/// sessions below `authorization`, one directory for each.
pub proof fn law_private_files_have_their_place(
    state: Seq<u8>,
    directory: Seq<u8>,
    id: Seq<char>,
    key: Seq<char>,
)
    ensures
        paths::credential_directory(state) == paths::joined_path(state, encode_utf8("oauth"@)),
        paths::session_directory(state, id) == paths::joined_path(
            paths::joined_path(state, encode_utf8("authorization"@)),
            encode_utf8(id),
        ),
        custody::credential_path(directory, id) == paths::joined_path(
            directory,
            encode_utf8(id + ".json"@),
        ),
        custody::session_path(directory, key) == paths::joined_path(
            directory,
            encode_utf8(
                text::hexadecimal(outside::sha256_digest(encode_utf8(key))),
            ),
        ),
{
}

/// A write goes through its directory, its temporary file and its target, in that order, and
/// the permissions that are set are those of the owner alone.
pub proof fn law_writes_go_step_by_step(
    directory: Seq<u8>,
    stem: Seq<char>,
    extension: Seq<char>,
    process: nat,
)
    ensures
        ({
            let first = custody::private_write(directory, stem, extension, process);
            let second = first.advanced();
            let third = second.advanced();
            let fourth = third.advanced();
            let fifth = fourth.advanced();
            let target = paths::joined_path(directory, encode_utf8(stem + extension));
            let temporary = paths::joined_path(
                directory,
                encode_utf8(stem + ".tmp-"@ + text::decimal(process)),
            );
            &&& first.due() == ActionView::CreateDirectory(directory)
            &&& second.due() == ActionView::Restrict(directory, 448)
            &&& third.due() == ActionView::Write(temporary)
            &&& fourth.due() == ActionView::Restrict(temporary, 384)
            &&& fifth.due() == ActionView::Rename(temporary, target)
            &&& fifth.advanced().due() == ActionView::Nothing
        }),
{
}

/// A write that fails is told by the step that failed.
pub proof fn law_failed_writes_tell_the_step(
    directory: Seq<u8>,
    stem: Seq<char>,
    extension: Seq<char>,
    process: nat,
)
    ensures
        ({
            let first = custody::private_write(directory, stem, extension, process);
            let second = first.advanced();
            let third = second.advanced();
            let fourth = third.advanced();
            let fifth = fourth.advanced();
            &&& first.step.complaint() == "creating private state: "@
            &&& second.step.complaint() == "setting private state permissions: "@
            &&& third.step.complaint() == "writing private state: "@
            &&& fourth.step.complaint() == "setting private state permissions: "@
            &&& fifth.step.complaint() == "committing private state: "@
            &&& fifth.advanced().step.complaint() == ""@
        }),
{
    assert(""@ =~= Seq::<char>::empty()) by {
        reveal_strlit("");
    }
}

/// What a file holds is what is read of it; one that is not there holds nothing, and one that
/// cannot be read is a failure. What is not there is removed already.
pub proof fn law_files_are_read_as_they_are(
    what: Seq<char>,
    text: String,
    reason: String,
    removal: FileRemoval,
)
    ensures
        custody::read_outcome(what, FileRead::Text(text)) == Ok::<_, ErrorView>(Some(text@)),
        custody::read_outcome(what, FileRead::Missing) == Ok::<_, ErrorView>(None::<Seq<char>>),
        custody::read_outcome(what, FileRead::Failed(reason)) == Err::<Option<Seq<char>>, _>(
            ErrorView::Configuration(what + reason@),
        ),
        custody::removal_refusal(FileRemoval::Failed(reason)) == Some(
            ErrorView::Configuration("removing private state: "@ + reason@),
        ),
        removal !is Failed ==> custody::removal_refusal(removal) is None,
{
}

/// The contents of plans, callbacks and paths are those of their fields, each of them.
pub proof fn law_flow_contents_are_their_fields(
    plan: AuthorizationPlan,
    endpoint: CallbackEndpoint,
    paths: LocalPaths,
    i: int,
)
    ensures
        plan@.redirect_uri == plan.redirect_uri@,
        plan@.client_name == plan.client_name@,
        plan@.application_type == plan.application_type@,
        plan@.scopes.len() == plan.scopes@.len(),
        0 <= i < plan.scopes@.len() ==> plan@.scopes[i] == plan.scopes@[i]@,
        plan@.preregistered_client is Some <==> plan.preregistered_client is Some,
        plan.preregistered_client is Some ==> plan@.preregistered_client->0
            == plan.preregistered_client->0@,
        plan@.client_secret is Some <==> plan.client_secret is Some,
        plan.client_secret is Some ==> plan@.client_secret->0 == plan.client_secret->0@,
        plan@.client_metadata_url is Some <==> plan.client_metadata_url is Some,
        plan.client_metadata_url is Some ==> plan@.client_metadata_url->0
            == plan.client_metadata_url->0@,
        plan@.challenge is Some <==> plan.challenge is Some,
        plan.challenge is Some ==> plan@.challenge->0 == plan.challenge->0@,
        endpoint@.address == endpoint.address,
        endpoint@.host == endpoint.host@,
        endpoint@.port == endpoint.port,
        paths@.registry == paths.registry@,
        paths@.state == paths.state@,
{
}

} // verus!
