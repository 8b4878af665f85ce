//! The relay's configuration and how it is obtained: from a setup token,
//! a setup deep link, or the saved file and the OS keychain.

use vstd::prelude::*;
use crate::text::{find_char, first_index_of, is_first_index, lemma_first_index_of, starts_with};
use crate::http_status::{status_line, status_text};

verus! {

/// Where the relay finds its queue and how it authenticates.
#[derive(Clone, Debug)]
pub struct RelayConfig {
    pub supabase_url: String,
    pub supabase_key: String,
    pub venue_id: String,
    pub relay_hmac_secret: String,
}

/// The configuration loaded from file, with the HMAC secret taken from the
/// OS keychain where one is stored there: the keychain wins over the file.
pub fn with_keychain_secret(cfg: RelayConfig, keychain_secret: Option<String>) -> (r: RelayConfig)
    ensures
        r.supabase_url == cfg.supabase_url,
        r.supabase_key == cfg.supabase_key,
        r.venue_id == cfg.venue_id,
        r.relay_hmac_secret == match keychain_secret {
            Some(s) => s,
            None => cfg.relay_hmac_secret,
        },
{
    let mut cfg = cfg;
    match keychain_secret {
        Some(s) => {
            cfg.relay_hmac_secret = s;
        },
        None => {},
    }
    cfg
}

/// The point-of-sale server that a plain setup token is claimed at.
pub open spec fn default_pos_base_url() -> Seq<char> {
    "https://pos.synalux.ai"@
}

/// A setup token split into the server it is claimed at and the token
/// proper: `url|token` names its server, a plain token uses the default one.
pub open spec fn setup_token_parts(token: Seq<char>) -> (Seq<char>, Seq<char>) {
    match first_index_of(token, '|') {
        Some(i) => (token.subrange(0, i), token.subrange(i + 1, token.len() as int)),
        None => (default_pos_base_url(), token),
    }
}

/// A setup token split into the server it is claimed at and the token proper.
pub struct SetupToken {
    pub base_url: String,
    pub token: String,
}

/// Splits a setup token at its first `|`, if it has one.
pub fn split_setup_token(token: &str) -> (r: SetupToken)
    ensures
        (r.base_url@, r.token@) == setup_token_parts(token@),
{
    match find_char(token, '|') {
        Some(i) => {
            let n = token.unicode_len();
            let base = token.substring_char(0, i);
            let rest = token.substring_char(i + 1, n);
            SetupToken { base_url: String::from_str(base), token: String::from_str(rest) }
        },
        None => SetupToken {
            base_url: String::from_str("https://pos.synalux.ai"),
            token: String::from_str(token),
        },
    }
}

/// Splitting undoes joining: a token that names its server is that server,
/// a `|` and the token proper, and the server part holds no `|`.
pub proof fn lemma_setup_token_round_trip(token: Seq<char>)
    requires
        token.contains('|'),
    ensures
        setup_token_parts(token).0 + seq!['|'] + setup_token_parts(token).1 == token,
        !setup_token_parts(token).0.contains('|'),
{
    lemma_first_index_of(token, '|');
    let i = first_index_of(token, '|')->0;
    assert(is_first_index(token, '|', i));
    assert(token.subrange(0, i) + seq!['|'] + token.subrange(i + 1, token.len() as int) =~= token);
    assert(!token.subrange(0, i).contains('|')) by {
        if token.subrange(0, i).contains('|') {
            let j = choose|j: int| 0 <= j < i && token.subrange(0, i)[j] == '|';
            assert(token[j] == '|');
        }
    }
}

/// A token without a `|` is claimed as it is, at the default server.
pub proof fn lemma_plain_token_kept(token: Seq<char>)
    requires
        !token.contains('|'),
    ensures
        setup_token_parts(token) == (default_pos_base_url(), token),
{
    lemma_first_index_of(token, '|');
}

/// The address at which a setup token is claimed on server `base_url`.
pub open spec fn claim_endpoint_text(base_url: Seq<char>) -> Seq<char> {
    base_url + "/api/v1/pos/settings/relay/claim"@
}

/// The address at which a setup token is claimed on server `base_url`.
pub fn claim_endpoint(base_url: &str) -> (r: String)
    ensures
        r@ == claim_endpoint_text(base_url@),
{
    let mut s = String::from_str(base_url);
    s.append("/api/v1/pos/settings/relay/claim");
    s
}

/// The error with which a refused setup claim fails.
pub open spec fn setup_failure_text(code: u16, body: Seq<char>) -> Seq<char> {
    "Setup failed: "@ + status_text(code) + " — "@ + body
}

/// The error with which a refused setup claim fails, given the status code
/// and the reply text.
pub fn setup_failure(code: u16, body: &str) -> (r: String)
    ensures
        r@ == setup_failure_text(code, body@),
{
    let mut s = String::from_str("Setup failed: ");
    let line = status_line(code);
    s.append(line.as_str());
    s.append(" — ");
    s.append(body);
    s
}

/// What a successful setup answers.
pub fn configured_message(venue_id: &str) -> (r: String)
    ensures
        r@ == "Configured for venue "@ + venue_id@,
{
    let mut s = String::from_str("Configured for venue ");
    s.append(venue_id);
    s
}

/// `s` without its leading and trailing `"` characters.
pub open spec fn trim_quotes(s: Seq<char>) -> Seq<char>
    decreases s.len(),
{
    if s.len() > 0 && s[0] == '"' {
        trim_quotes(s.drop_first())
    } else if s.len() > 0 && s.last() == '"' {
        trim_quotes(s.drop_last())
    } else {
        s
    }
}

/// Trimming quotes leaves no quote at either end.
proof fn lemma_trim_quotes_unquoted(s: Seq<char>)
    ensures
        trim_quotes(s).len() > 0 ==> trim_quotes(s)[0] != '"' && trim_quotes(s).last() != '"',
        trim_quotes(s).len() <= s.len(),
    decreases s.len(),
{
    if s.len() > 0 && s[0] == '"' {
        lemma_trim_quotes_unquoted(s.drop_first());
    } else if s.len() > 0 && s.last() == '"' {
        lemma_trim_quotes_unquoted(s.drop_last());
    }
}

/// The start of a setup deep link; the token follows it.
pub open spec fn setup_link_prefix() -> Seq<char> {
    "synalux-relay://setup?token="@
}

/// The setup token that a deep link carries: the text after the setup
/// prefix, without surrounding quotes; none for other links.
pub open spec fn deep_link_token_text(url: Seq<char>) -> Option<Seq<char>> {
    if setup_link_prefix().is_prefix_of(url) {
        Some(trim_quotes(url.subrange(setup_link_prefix().len() as int, url.len() as int)))
    } else {
        None
    }
}

/// The token read from a setup link never begins or ends with a quote.
pub proof fn lemma_deep_link_token_unquoted(url: Seq<char>)
    ensures
        deep_link_token_text(url) matches Some(t) ==> (t.len() > 0 ==> t[0] != '"' && t.last()
            != '"'),
{
    if setup_link_prefix().is_prefix_of(url) {
        lemma_trim_quotes_unquoted(url.subrange(setup_link_prefix().len() as int, url.len() as int));
    }
}

/// A setup link yields the text after its prefix, as it is, when that text
/// has no quote at either end.
pub proof fn lemma_deep_link_plain_token(t: Seq<char>)
    requires
        t.len() == 0 || (t[0] != '"' && t.last() != '"'),
    ensures
        deep_link_token_text(setup_link_prefix() + t) == Some(t),
{
    let url = setup_link_prefix() + t;
    let n = setup_link_prefix().len() as int;
    assert(url.subrange(0, n) =~= setup_link_prefix());
    assert(url.subrange(n, url.len() as int) =~= t);
}

/// Reads the setup token out of a deep link.
pub fn deep_link_token(url: &str) -> (r: Option<String>)
    ensures
        r.deep_view() == deep_link_token_text(url@),
{
    let prefix = "synalux-relay://setup?token=";
    if !starts_with(url, prefix) {
        return None;
    }
    let chars = crate::text::chars_of(url);
    let n = chars.len();
    let mut start = prefix.unicode_len();
    let ghost s = url@;
    let ghost p = prefix@;
    proof {
        assert(s.subrange(start as int, n as int) =~= s.subrange(p.len() as int, s.len() as int));
    }
    while start < n && chars[start] == '"'
        invariant
            chars@ == s,
            n == s.len(),
            p.len() <= start <= n,
            trim_quotes(s.subrange(p.len() as int, n as int)) == trim_quotes(
                s.subrange(start as int, n as int),
            ),
        decreases n - start,
    {
        assert(s.subrange(start as int, n as int).drop_first() =~= s.subrange(start + 1, n as int));
        start += 1;
    }
    let mut end = n;
    while end > start && chars[end - 1] == '"'
        invariant
            chars@ == s,
            n == s.len(),
            p.len() <= start <= end <= n,
            start < end ==> s[start as int] != '"',
            trim_quotes(s.subrange(p.len() as int, n as int)) == trim_quotes(
                s.subrange(start as int, end as int),
            ),
        decreases end - start,
    {
        assert(s.subrange(start as int, end as int).drop_last() =~= s.subrange(start as int, end - 1));
        end -= 1;
    }
    let token = url.substring_char(start, end);
    Some(String::from_str(token))
}

} // verus!
