//! Server configuration, from the values of its environment variables.
use vstd::prelude::*;
use crate::text::concat2;

verus! {

/// The raw values of the environment variables the server reads; `None`
/// where a variable is unset (or not valid Unicode).
pub struct EnvVars {
    pub repo_url: Option<String>,
    pub github_token: Option<String>,
    pub oauth_client_id: Option<String>,
    pub oauth_client_secret: Option<String>,
    pub jwt_signing_key: Option<String>,
    pub server_url: Option<String>,
    pub allowed_redirect_uris: Option<String>,
    pub branch: Option<String>,
    pub port: Option<String>,
    pub workspace_subdir: Option<String>,
}

/// Server configuration.
pub struct Config {
    /// Git repo URL (HTTPS).
    pub repo_url: String,
    /// MCP working branch name.
    pub branch: String,
    /// GitHub token for git push authentication.
    pub github_token: String,
    /// OAuth client ID (entered in the MCP client).
    pub oauth_client_id: String,
    /// OAuth client secret (entered in the MCP client).
    pub oauth_client_secret: String,
    /// Secret key for signing JWT access/refresh tokens.
    pub jwt_signing_key: String,
    /// Canonical externally reachable server URL, without trailing slashes.
    pub server_url: String,
    /// OAuth redirect URIs the server accepts.
    pub allowed_redirect_uris: Vec<String>,
    /// HTTP listen port.
    pub port: u16,
    /// Optional subdirectory within the repo holding the Firm workspace.
    pub workspace_subdir: Option<String>,
}

// ---------------------------------------------------------------------------
// Decimal port numbers
// ---------------------------------------------------------------------------

/// Every character is an ASCII digit.
pub open spec fn all_digits(s: Seq<char>) -> bool {
    forall|i: int| 0 <= i < s.len() ==> '0' <= #[trigger] s[i] <= '9'
}

/// The value of a string of ASCII digits.
pub open spec fn digits_value(s: Seq<char>) -> int
    decreases s.len(),
{
    if s.len() == 0 {
        0
    } else {
        digits_value(s.drop_last()) * 10 + (s.last() as int - '0' as int)
    }
}

/// The `u16` that `str::parse::<u16>` reads from `s`, as std documents it:
/// an optional `+` followed by one or more ASCII digits, nothing else, and a
/// value that fits.
pub open spec fn u16_decimal(s: Seq<char>) -> Option<u16> {
    let d = if s.len() > 0 && s[0] == '+' {
        s.skip(1)
    } else {
        s
    };
    if d.len() > 0 && all_digits(d) && digits_value(d) <= 65535 {
        Some(digits_value(d) as u16)
    } else {
        None
    }
}

/// Calls std's `str::parse::<u16>` and, on failure, converts the
/// `ParseIntError` to its display text. Trusted: success and the value
/// follow `u16_decimal`, as std documents integer parsing. The error text is
/// left unsaid.
#[verifier::external_body]
fn parse_u16(s: &str) -> (r: Result<u16, String>)
    ensures
        r is Ok <==> u16_decimal(s@) is Some,
        r matches Ok(v) ==> u16_decimal(s@) == Some(v),
{
    match s.parse::<u16>() {
        Ok(v) => Ok(v),
        Err(e) => Err(e.to_string()),
    }
}

// ---------------------------------------------------------------------------
// Server URL and redirect URIs
// ---------------------------------------------------------------------------

/// `s` with all trailing `/` removed.
pub open spec fn trim_trailing_slashes(s: Seq<char>) -> Seq<char>
    decreases s.len(),
{
    if s.len() > 0 && s.last() == '/' {
        trim_trailing_slashes(s.drop_last())
    } else {
        s
    }
}

/// Removes every trailing `/` from `s`.
pub fn strip_trailing_slashes(s: &str) -> (r: String)
    ensures
        r@ == trim_trailing_slashes(s@),
{
    let n = s.unicode_len();
    let mut end = n;
    assert(s@.subrange(0, n as int) =~= s@);
    while end > 0 && s.get_char(end - 1) == '/'
        invariant
            n == s@.len(),
            end <= n,
            trim_trailing_slashes(s@) == trim_trailing_slashes(s@.subrange(0, end as int)),
        decreases end,
    {
        assert(s@.subrange(0, end as int).drop_last() =~= s@.subrange(0, end - 1));
        end = end - 1;
    }
    assert(trim_trailing_slashes(s@.subrange(0, end as int)) == s@.subrange(0, end as int));
    s.substring_char(0, end).to_owned()
}

/// The configured server URL never ends with `/`, so paths appended to it
/// never produce `//`.
pub proof fn lemma_no_trailing_slash(s: Seq<char>)
    ensures
        trim_trailing_slashes(s).len() == 0 || trim_trailing_slashes(s).last() != '/',
    decreases s.len(),
{
    if s.len() > 0 && s.last() == '/' {
        lemma_no_trailing_slash(s.drop_last());
    }
}

/// ASCII whitespace as the redirect URI list treats it.
pub open spec fn is_space(c: char) -> bool {
    c == ' ' || c == '\t' || c == '\n' || c == '\r'
}

/// `s` without leading and trailing whitespace.
pub open spec fn trim(s: Seq<char>) -> Seq<char>
    decreases s.len(),
{
    if s.len() > 0 && is_space(s[0]) {
        trim(s.skip(1))
    } else if s.len() > 0 && is_space(s.last()) {
        trim(s.drop_last())
    } else {
        s
    }
}

/// The list entry an item gives: the trimmed item, or nothing when that is
/// empty.
pub open spec fn entry(item: Seq<char>) -> Seq<Seq<char>> {
    if trim(item).len() == 0 {
        Seq::empty()
    } else {
        seq![trim(item)]
    }
}

/// The entries of the comma-separated list `s`, where `current` is the
/// item read so far before `s`.
pub open spec fn comma_list_from(s: Seq<char>, current: Seq<char>) -> Seq<Seq<char>>
    decreases s.len(),
{
    if s.len() == 0 {
        entry(current)
    } else if s[0] == ',' {
        entry(current) + comma_list_from(s.skip(1), Seq::empty())
    } else {
        comma_list_from(s.skip(1), current.push(s[0]))
    }
}

/// The entries of a comma-separated list: items trimmed of whitespace,
/// empty items dropped.
pub open spec fn comma_list(s: Seq<char>) -> Seq<Seq<char>> {
    comma_list_from(s, Seq::empty())
}

proof fn lemma_comma_free_item(s: Seq<char>, current: Seq<char>)
    requires
        !s.contains(','),
    ensures
        comma_list_from(s, current) == entry(current + s),
    decreases s.len(),
{
    if s.len() == 0 {
        assert(current + s =~= current);
    } else {
        assert(s[0] != ',');
        assert(!s.skip(1).contains(',')) by {
            if s.skip(1).contains(',') {
                let j = choose|j: int| 0 <= j < s.skip(1).len() && s.skip(1)[j] == ',';
                assert(s[j + 1] == ',');
            }
        }
        lemma_comma_free_item(s.skip(1), current.push(s[0]));
        assert(current.push(s[0]) + s.skip(1) =~= current + s);
    }
}

proof fn lemma_comma_split_from(a: Seq<char>, b: Seq<char>, current: Seq<char>)
    ensures
        comma_list_from(a + seq![','] + b, current) == comma_list_from(a, current) + comma_list(b),
    decreases a.len(),
{
    let s = a + seq![','] + b;
    if a.len() == 0 {
        assert(s[0] == ',');
        assert(s.skip(1) =~= b);
    } else {
        assert(s[0] == a[0]);
        assert(s.skip(1) =~= a.skip(1) + seq![','] + b);
        lemma_comma_split_from(a.skip(1), b, if a[0] == ',' {
            Seq::empty()
        } else {
            current.push(a[0])
        });
        if a[0] == ',' {
            assert(comma_list_from(a, current) == entry(current) + comma_list_from(
                a.skip(1),
                Seq::empty(),
            ));
            assert(entry(current) + (comma_list_from(a.skip(1), Seq::empty()) + comma_list(b))
                =~= (entry(current) + comma_list_from(a.skip(1), Seq::empty())) + comma_list(b));
        }
    }
}

/// A value with no comma is a single item: its trimmed text is the one
/// entry of the list, or the list is empty when the value is blank.
pub proof fn lemma_comma_list_single(s: Seq<char>)
    requires
        !s.contains(','),
    ensures
        trim(s).len() > 0 ==> comma_list(s) == seq![trim(s)],
        trim(s).len() == 0 ==> comma_list(s).len() == 0,
{
    lemma_comma_free_item(s, Seq::empty());
    assert(Seq::<char>::empty() + s =~= s);
}

/// Splitting at a comma splits the list: the entries of `a,b` are those of
/// `a` followed by those of `b`.
pub proof fn lemma_comma_list_split(a: Seq<char>, b: Seq<char>)
    ensures
        comma_list(a + seq![','] + b) == comma_list(a) + comma_list(b),
{
    lemma_comma_split_from(a, b, Seq::empty());
}

proof fn lemma_trim_subrange(s: Seq<char>, a: int, b: int)
    requires
        0 <= a <= b <= s.len(),
        forall|i: int| 0 <= i < a ==> is_space(#[trigger] s[i]),
    ensures
        trim(s.subrange(0, b)) == trim(s.subrange(a, b)),
    decreases a,
{
    if a > 0 {
        lemma_trim_subrange(s, a - 1, b);
        let t = s.subrange(a - 1, b);
        assert(t.len() > 0 && is_space(t[0]));
        assert(t.skip(1) =~= s.subrange(a, b));
    }
}

proof fn lemma_trim_end(s: Seq<char>, a: int, b: int, e: int)
    requires
        0 <= a <= b <= e <= s.len(),
        a < b ==> !is_space(s[a]),
        forall|i: int| b <= i < e ==> is_space(#[trigger] s[i]),
    ensures
        trim(s.subrange(a, e)) == trim(s.subrange(a, b)),
    decreases e - b,
{
    if e > b {
        lemma_trim_end(s, a, b, e - 1);
        let t = s.subrange(a, e);
        assert(t.drop_last() =~= s.subrange(a, e - 1));
        assert(is_space(t.last()));
        if t.len() > 0 && is_space(t[0]) {
            assert(a == b || !is_space(s[a]));
            assert(a == b);
            assert(t.skip(1) =~= s.subrange(a + 1, e));
            lemma_all_space_trim(s.subrange(a, e));
            lemma_all_space_trim(s.subrange(a, e - 1));
        }
    }
}

proof fn lemma_all_space_trim(s: Seq<char>)
    requires
        forall|i: int| 0 <= i < s.len() ==> is_space(#[trigger] s[i]),
    ensures
        trim(s).len() == 0,
    decreases s.len(),
{
    if s.len() > 0 {
        assert(is_space(s[0]));
        lemma_all_space_trim(s.skip(1));
    }
}

proof fn lemma_trim_fixed(s: Seq<char>)
    requires
        s.len() > 0 ==> !is_space(s[0]) && !is_space(s.last()),
    ensures
        trim(s) == s,
{
}

/// The whitespace-trimmed text of `s`.
fn trim_spaces(s: &str) -> (r: String)
    ensures
        r@ == trim(s@),
{
    let n = s.unicode_len();
    let mut start: usize = 0;
    while start < n && is_space_char(s.get_char(start))
        invariant
            n == s@.len(),
            start <= n,
            forall|i: int| 0 <= i < start ==> is_space(#[trigger] s@[i]),
        decreases n - start,
    {
        start = start + 1;
    }
    let mut end: usize = n;
    while end > start && is_space_char(s.get_char(end - 1))
        invariant
            n == s@.len(),
            start <= end <= n,
            forall|i: int| end <= i < n ==> is_space(#[trigger] s@[i]),
        decreases end,
    {
        end = end - 1;
    }
    proof {
        assert(s@.subrange(0, n as int) =~= s@);
        lemma_trim_subrange(s@, start as int, n as int);
        lemma_trim_end(s@, start as int, end as int, n as int);
        lemma_trim_fixed(s@.subrange(start as int, end as int));
    }
    s.substring_char(start, end).to_owned()
}

fn is_space_char(c: char) -> (r: bool)
    ensures
        r == is_space(c),
{
    c == ' ' || c == '\t' || c == '\n' || c == '\r'
}

proof fn lemma_trim_ends(s: Seq<char>)
    ensures
        trim(s).len() > 0 ==> !is_space(trim(s)[0]) && !is_space(trim(s).last()),
    decreases s.len(),
{
    if s.len() > 0 && is_space(s[0]) {
        lemma_trim_ends(s.skip(1));
    } else if s.len() > 0 && is_space(s.last()) {
        lemma_trim_ends(s.drop_last());
    }
}

/// Every entry of a comma-separated list is non-empty, holds no comma and
/// neither starts nor ends with whitespace.
pub proof fn lemma_comma_list_well_formed(s: Seq<char>)
    ensures
        forall|k: int|
            0 <= k < comma_list(s).len() ==> {
                let e = #[trigger] comma_list(s)[k];
                &&& e.len() > 0
                &&& !is_space(e[0])
                &&& !is_space(e.last())
                &&& forall|i: int| 0 <= i < e.len() ==> e[i] != ','
            },
{
    lemma_comma_list_entries(s, Seq::empty());
}

proof fn lemma_comma_list_entries(s: Seq<char>, current: Seq<char>)
    requires
        forall|i: int| 0 <= i < current.len() ==> #[trigger] current[i] != ',',
    ensures
        forall|k: int|
            0 <= k < comma_list_from(s, current).len() ==> {
                let e = #[trigger] comma_list_from(s, current)[k];
                &&& e.len() > 0
                &&& !is_space(e[0])
                &&& !is_space(e.last())
                &&& forall|i: int| 0 <= i < e.len() ==> e[i] != ','
            },
    decreases s.len(),
{
    lemma_entry_shape(current);
    if s.len() == 0 {
        assert(comma_list_from(s, current) == entry(current));
    } else if s[0] == ',' {
        lemma_comma_list_entries(s.skip(1), Seq::empty());
        let a = entry(current);
        let b = comma_list_from(s.skip(1), Seq::empty());
        assert(comma_list_from(s, current) == a + b);
        assert forall|k: int| 0 <= k < (a + b).len() implies {
            let e = #[trigger] (a + b)[k];
            &&& e.len() > 0
            &&& !is_space(e[0])
            &&& !is_space(e.last())
            &&& forall|i: int| 0 <= i < e.len() ==> e[i] != ','
        } by {
            if k < a.len() {
                assert((a + b)[k] == a[k]);
            } else {
                assert((a + b)[k] == b[k - a.len()]);
            }
        }
    } else {
        let next = current.push(s[0]);
        assert forall|i: int| 0 <= i < next.len() implies #[trigger] next[i] != ',' by {
            if i < current.len() {
                assert(next[i] == current[i]);
            }
        }
        lemma_comma_list_entries(s.skip(1), next);
        assert(comma_list_from(s, current) == comma_list_from(s.skip(1), next));
    }
}

proof fn lemma_entry_shape(item: Seq<char>)
    requires
        forall|i: int| 0 <= i < item.len() ==> #[trigger] item[i] != ',',
    ensures
        forall|k: int|
            0 <= k < entry(item).len() ==> {
                let e = #[trigger] entry(item)[k];
                &&& e.len() > 0
                &&& !is_space(e[0])
                &&& !is_space(e.last())
                &&& forall|i: int| 0 <= i < e.len() ==> e[i] != ','
            },
{
    lemma_trim_ends(item);
    lemma_trim_within(item);
    let t = trim(item);
    if t.len() > 0 {
        assert(entry(item) =~= seq![t]);
        assert forall|i: int| 0 <= i < t.len() implies t[i] != ',' by {
            let j = choose|j: int| 0 <= j < item.len() && #[trigger] t[i] == item[j];
            assert(item[j] != ',');
        }
    }
}

proof fn lemma_trim_within(s: Seq<char>)
    ensures
        forall|i: int| 0 <= i < trim(s).len() ==> exists|j: int| 0 <= j < s.len() && #[trigger] trim(s)[i] == s[j],
    decreases s.len(),
{
    if s.len() > 0 && is_space(s[0]) {
        lemma_trim_within(s.skip(1));
        assert forall|i: int| 0 <= i < trim(s).len() implies exists|j: int| 0 <= j < s.len() && #[trigger] trim(s)[i] == s[j] by {
            let j = choose|j: int| 0 <= j < s.skip(1).len() && trim(s.skip(1))[i] == s.skip(1)[j];
            assert(s[j + 1] == s.skip(1)[j]);
        }
    } else if s.len() > 0 && is_space(s.last()) {
        lemma_trim_within(s.drop_last());
        assert forall|i: int| 0 <= i < trim(s).len() implies exists|j: int| 0 <= j < s.len() && #[trigger] trim(s)[i] == s[j] by {
            let j = choose|j: int| 0 <= j < s.drop_last().len() && trim(s.drop_last())[i] == s.drop_last()[j];
            assert(s[j] == s.drop_last()[j]);
        }
    } else {
        assert forall|i: int| 0 <= i < trim(s).len() implies exists|j: int| 0 <= j < s.len() && #[trigger] trim(s)[i] == s[j] by {
            assert(trim(s)[i] == s[i]);
        }
    }
}

/// Splits a comma-separated list into its trimmed, non-empty entries.
pub fn parse_comma_list(s: &str) -> (r: Vec<String>)
    ensures
        r.deep_view() == comma_list(s@),
{
    let n = s.unicode_len();
    let mut out: Vec<String> = Vec::new();
    let mut item_start: usize = 0;
    let mut i: usize = 0;
    assert(out.deep_view() =~= Seq::<Seq<char>>::empty());
    assert(s@.skip(0) =~= s@);
    assert(s@.subrange(0, 0) =~= Seq::<char>::empty());
    while i < n
        invariant
            n == s@.len(),
            item_start <= i <= n,
            comma_list(s@) == out.deep_view() + comma_list_from(
                s@.skip(i as int),
                s@.subrange(item_start as int, i as int),
            ),
        decreases n - i,
    {
        let c = s.get_char(i);
        proof {
            assert(s@.skip(i as int)[0] == c);
            assert(s@.skip(i as int).skip(1) =~= s@.skip(i + 1));
        }
        if c == ',' {
            let item = trim_spaces(s.substring_char(item_start, i));
            let ghost before = out.deep_view();
            if item.unicode_len() > 0 {
                out.push(item);
            }
            proof {
                assert(out.deep_view() =~= before + entry(s@.subrange(item_start as int, i as int)));
                assert(s@.subrange(i + 1, i + 1) =~= Seq::<char>::empty());
            }
            item_start = i + 1;
        } else {
            assert(s@.subrange(item_start as int, i as int).push(c) =~= s@.subrange(
                item_start as int,
                i + 1,
            ));
        }
        i = i + 1;
    }
    let item = trim_spaces(s.substring_char(item_start, n));
    let ghost before = out.deep_view();
    if item.unicode_len() > 0 {
        out.push(item);
    }
    proof {
        assert(s@.skip(n as int) =~= Seq::<char>::empty());
        assert(out.deep_view() =~= before + entry(s@.subrange(item_start as int, n as int)));
    }
    out
}

// ---------------------------------------------------------------------------
// Reading the configuration
// ---------------------------------------------------------------------------

/// The first required variable that is missing, by its error message.
pub open spec fn first_missing(vars: EnvVars) -> Option<Seq<char>> {
    if vars.repo_url is None {
        Some("REPO_URL environment variable is required"@)
    } else if vars.github_token is None {
        Some("GITHUB_TOKEN environment variable is required"@)
    } else if vars.oauth_client_id is None {
        Some("OAUTH_CLIENT_ID environment variable is required"@)
    } else if vars.oauth_client_secret is None {
        Some("OAUTH_CLIENT_SECRET environment variable is required"@)
    } else if vars.jwt_signing_key is None {
        Some("JWT_SIGNING_KEY environment variable is required"@)
    } else if vars.server_url is None {
        Some("SERVER_URL environment variable is required"@)
    } else {
        None
    }
}

/// The text of the `PORT` variable, `"8080"` when it is unset.
pub open spec fn port_text(vars: EnvVars) -> Seq<char> {
    match vars.port {
        Some(p) => p@,
        None => "8080"@,
    }
}

/// Takes the value out of a variable that is known to be set.
fn required(v: Option<String>) -> (r: String)
    requires
        v is Some,
    ensures
        v == Some(r),
{
    match v {
        Some(s) => s,
        None => {
            assert(false);
            String::new()
        },
    }
}

/// `c` is what the variables `vars` configure.
pub open spec fn config_read(c: Config, vars: EnvVars) -> bool {
    &&& c.repo_url@ == vars.repo_url->Some_0@
    &&& c.github_token@ == vars.github_token->Some_0@
    &&& c.oauth_client_id@ == vars.oauth_client_id->Some_0@
    &&& c.oauth_client_secret@ == vars.oauth_client_secret->Some_0@
    &&& c.jwt_signing_key@ == vars.jwt_signing_key->Some_0@
    &&& c.server_url@ == trim_trailing_slashes(vars.server_url->Some_0@)
    &&& c.allowed_redirect_uris.deep_view() == match vars.allowed_redirect_uris {
        Some(u) => comma_list(u@),
        None => Seq::empty(),
    }
    &&& c.branch@ == match vars.branch {
        Some(b) => b@,
        None => "mcp"@,
    }
    &&& Some(c.port) == u16_decimal(port_text(vars))
    &&& c.workspace_subdir == vars.workspace_subdir
}

/// An error message about the `PORT` value.
pub open spec fn is_port_error(e: Seq<char>) -> bool {
    e.len() >= 20 && e.subrange(0, 20) == "Invalid PORT value: "@
}

impl Config {
    /// Reads the configuration from the environment's values: every
    /// required variable must be set (the first missing one is reported),
    /// `BRANCH` defaults to `mcp`, `PORT` to 8080 and must be a decimal
    /// `u16`, `SERVER_URL` loses its trailing slashes and
    /// `ALLOWED_REDIRECT_URIS` is an optional comma-separated list, empty
    /// when unset.
    pub fn from_env(vars: EnvVars) -> (r: Result<Config, String>)
        ensures
            match r {
                Ok(c) => first_missing(vars) is None && u16_decimal(port_text(vars)) is Some
                    && config_read(c, vars),
                Err(e) => match first_missing(vars) {
                    Some(msg) => e@ == msg,
                    None => u16_decimal(port_text(vars)) is None && is_port_error(e@),
                },
            },
    {
        if vars.repo_url.is_none() {
            return Err("REPO_URL environment variable is required".to_owned());
        }
        if vars.github_token.is_none() {
            return Err("GITHUB_TOKEN environment variable is required".to_owned());
        }
        if vars.oauth_client_id.is_none() {
            return Err("OAUTH_CLIENT_ID environment variable is required".to_owned());
        }
        if vars.oauth_client_secret.is_none() {
            return Err("OAUTH_CLIENT_SECRET environment variable is required".to_owned());
        }
        if vars.jwt_signing_key.is_none() {
            return Err("JWT_SIGNING_KEY environment variable is required".to_owned());
        }
        if vars.server_url.is_none() {
            return Err("SERVER_URL environment variable is required".to_owned());
        }
        let port_value = match &vars.port {
            Some(p) => p.clone(),
            None => "8080".to_owned(),
        };
        let port = match parse_u16(port_value.as_str()) {
            Ok(p) => p,
            Err(e) => {
                let msg = concat2("Invalid PORT value: ", e.as_str());
                proof {
                    reveal_strlit("Invalid PORT value: ");
                    assert(msg@.subrange(0, 20) =~= "Invalid PORT value: "@);
                }
                return Err(msg);
            },
        };
        let branch = match vars.branch {
            Some(b) => b,
            None => "mcp".to_owned(),
        };
        let server_url_raw = required(vars.server_url);
        let server_url = strip_trailing_slashes(server_url_raw.as_str());
        let allowed_redirect_uris = match &vars.allowed_redirect_uris {
            Some(u) => parse_comma_list(u.as_str()),
            None => {
                let none: Vec<String> = Vec::new();
                assert(none.deep_view() =~= Seq::<Seq<char>>::empty());
                none
            },
        };
        Ok(Config {
            repo_url: required(vars.repo_url),
            branch,
            github_token: required(vars.github_token),
            oauth_client_id: required(vars.oauth_client_id),
            oauth_client_secret: required(vars.oauth_client_secret),
            jwt_signing_key: required(vars.jwt_signing_key),
            server_url,
            allowed_redirect_uris,
            port,
            workspace_subdir: vars.workspace_subdir,
        })
    }
}

} // verus!
