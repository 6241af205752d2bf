//! Credential resolution: collecting candidate credentials from a request's
//! authorization and cookie header values and picking exactly one to attempt.

use vstd::prelude::*;
use vstd::string::StrSliceExecFns;
use vstd::string::StringExecFns;

verus! {

/// A candidate credential extracted from a request: either an HTTP Basic
/// payload (base64 of `username:password`) or a bearer token.
pub enum AuthScheme {
    Basic(String),
    Bearer(String),
}

/// Mathematical counterpart of [`AuthScheme`], over character sequences.
pub enum SpecCredential {
    Basic(Seq<char>),
    Bearer(Seq<char>),
}

impl View for AuthScheme {
    type V = SpecCredential;

    open spec fn view(&self) -> SpecCredential {
        match self {
            AuthScheme::Basic(s) => SpecCredential::Basic(s@),
            AuthScheme::Bearer(s) => SpecCredential::Bearer(s@),
        }
    }
}

/// The view of an optional credential, for stating contracts.
pub open spec fn view_opt(c: Option<AuthScheme>) -> Option<SpecCredential> {
    match c {
        Some(s) => Some(s@),
        None => None,
    }
}

/// ASCII whitespace, as trimmed from header values and cookie fragments.
pub open spec fn is_ws(c: char) -> bool {
    c == ' ' || c == '\t' || c == '\r' || c == '\n'
}

fn is_ws_exec(c: char) -> (r: bool)
    ensures
        r == is_ws(c),
{
    c == ' ' || c == '\t' || c == '\r' || c == '\n'
}

/// `s` with leading whitespace removed.
pub open spec fn ltrim_s(s: Seq<char>) -> Seq<char>
    decreases s.len(),
{
    if s.len() > 0 && is_ws(s[0]) {
        ltrim_s(s.drop_first())
    } else {
        s
    }
}

/// `s` with trailing whitespace removed.
pub open spec fn rtrim_s(s: Seq<char>) -> Seq<char>
    decreases s.len(),
{
    if s.len() > 0 && is_ws(s.last()) {
        rtrim_s(s.drop_last())
    } else {
        s
    }
}

/// `s` with whitespace removed from both ends.
pub open spec fn trim_s(s: Seq<char>) -> Seq<char> {
    rtrim_s(ltrim_s(s))
}

proof fn lemma_ltrim_skip(s: Seq<char>, i: int)
    requires
        0 <= i < s.len(),
        is_ws(s[i]),
    ensures
        ltrim_s(s.skip(i)) == ltrim_s(s.skip(i + 1)),
{
    assert(s.skip(i)[0] == s[i]);
    assert(s.skip(i).drop_first() =~= s.skip(i + 1));
}

proof fn lemma_rtrim_sub(s: Seq<char>, i: int, j: int)
    requires
        0 <= i < j <= s.len(),
        is_ws(s[j - 1]),
    ensures
        rtrim_s(s.subrange(i, j)) == rtrim_s(s.subrange(i, j - 1)),
{
    assert(s.subrange(i, j).last() == s[j - 1]);
    assert(s.subrange(i, j).drop_last() =~= s.subrange(i, j - 1));
}

/// Returns `s` with ASCII whitespace trimmed from both ends, as an owned
/// string.
pub fn trim_str(s: &str) -> (r: String)
    ensures
        r@ == trim_s(s@),
{
    let n: usize = s.unicode_len();
    let mut i: usize = 0;
    proof {
        assert(s@.skip(0) =~= s@);
    }
    loop
        invariant
            0 <= i <= n,
            n == s@.len(),
            ltrim_s(s@) == ltrim_s(s@.skip(i as int)),
        ensures
            0 <= i <= n,
            ltrim_s(s@) == ltrim_s(s@.skip(i as int)),
            i == n || !is_ws(s@[i as int]),
        decreases n - i,
    {
        if i < n {
            let c = s.get_char(i);
            if is_ws_exec(c) {
                proof {
                    lemma_ltrim_skip(s@, i as int);
                }
                i = i + 1;
            } else {
                break ;
            }
        } else {
            break ;
        }
    }
    proof {
        if i < n {
            assert(s@.skip(i as int)[0] == s@[i as int]);
            assert(ltrim_s(s@.skip(i as int)) == s@.skip(i as int));
        } else {
            assert(s@.skip(i as int) =~= Seq::<char>::empty());
            assert(ltrim_s(s@) =~= s@.skip(i as int));
        }
    }
    let mut j: usize = n;
    proof {
        assert(s@.skip(i as int) =~= s@.subrange(i as int, n as int));
    }
    loop
        invariant
            i <= j <= n,
            n == s@.len(),
            ltrim_s(s@) == s@.skip(i as int),
            rtrim_s(s@.skip(i as int)) == rtrim_s(s@.subrange(i as int, j as int)),
        ensures
            i <= j <= n,
            rtrim_s(s@.skip(i as int)) == rtrim_s(s@.subrange(i as int, j as int)),
            j == i || !is_ws(s@[j - 1]),
        decreases j,
    {
        if j > i {
            let c = s.get_char(j - 1);
            if is_ws_exec(c) {
                proof {
                    lemma_rtrim_sub(s@, i as int, j as int);
                }
                j = j - 1;
            } else {
                break ;
            }
        } else {
            break ;
        }
    }
    proof {
        if j > i {
            assert(s@.subrange(i as int, j as int).last() == s@[j - 1]);
            assert(rtrim_s(s@.subrange(i as int, j as int)) == s@.subrange(i as int, j as int));
        } else {
            assert(s@.subrange(i as int, j as int) =~= Seq::<char>::empty());
            assert(rtrim_s(s@.subrange(i as int, j as int)) == s@.subrange(i as int, j as int));
        }
        assert(s@.skip(i as int) =~= s@.subrange(i as int, n as int));
    }
    let t = s.substring_char(i, j);
    String::from_str(t)
}

/// `c` equals the lower-case letter `l`, ignoring ASCII case.
pub open spec fn eq_ci(c: char, l: char) -> bool {
    c as int == l as int || (97 <= l as int <= 122 && c as int + 32 == l as int)
}

fn eq_ci_exec(c: char, l: char) -> (r: bool)
    ensures
        r == eq_ci(c, l),
{
    let cu = c as u32;
    let lu = l as u32;
    cu == lu || (97 <= lu && lu <= 122 && cu + 32 == lu)
}

/// `s` begins with `p`, compared ignoring ASCII case (with `p` given in
/// lower case).
pub open spec fn has_prefix_ci(s: Seq<char>, p: Seq<char>) -> bool {
    s.len() >= p.len() && (forall|k: int| 0 <= k < p.len() ==> eq_ci(s[k], p[k]))
}

/// `s` begins with `p`, compared exactly.
pub open spec fn has_prefix(s: Seq<char>, p: Seq<char>) -> bool {
    s.len() >= p.len() && s.take(p.len() as int) == p
}

fn starts_with_ci(s: &str, p: &str) -> (r: bool)
    ensures
        r == has_prefix_ci(s@, p@),
{
    let n: usize = s.unicode_len();
    let m: usize = p.unicode_len();
    if n < m {
        return false;
    }
    let mut k: usize = 0;
    while k < m
        invariant
            0 <= k <= m,
            m <= n,
            n == s@.len(),
            m == p@.len(),
            forall|q: int| 0 <= q < k ==> eq_ci(s@[q], p@[q]),
        decreases m - k,
    {
        if !eq_ci_exec(s.get_char(k), p.get_char(k)) {
            return false;
        }
        k = k + 1;
    }
    true
}

/// Classification of one collected header value, after trimming: a Basic
/// payload, a bearer token, or unrecognized (`None`).  Scheme prefixes are
/// matched ignoring ASCII case.
pub open spec fn classify_s(s: Seq<char>) -> Option<SpecCredential> {
    if has_prefix_ci(s, "basic "@) {
        Some(SpecCredential::Basic(s.skip(6)))
    } else if has_prefix_ci(s, "bearer "@) {
        Some(SpecCredential::Bearer(s.skip(7)))
    } else {
        None
    }
}

impl DeepView for AuthScheme {
    type V = SpecCredential;

    open spec fn deep_view(&self) -> SpecCredential {
        self.view()
    }
}

impl AuthScheme {
    /// Classifies one already-trimmed header value by its scheme prefix.
    pub fn from_header(header: &str) -> (r: Option<AuthScheme>)
        ensures
            view_opt(r) == classify_s(header@),
    {
        proof {
            reveal_strlit("basic ");
            reveal_strlit("bearer ");
        }
        let n: usize = header.unicode_len();
        if starts_with_ci(header, "basic ") {
            let payload = header.substring_char(6, n);
            proof {
                assert(payload@ =~= header@.skip(6));
            }
            Some(AuthScheme::Basic(String::from_str(payload)))
        } else if starts_with_ci(header, "bearer ") {
            let token = header.substring_char(7, n);
            proof {
                assert(token@ =~= header@.skip(7));
            }
            Some(AuthScheme::Bearer(String::from_str(token)))
        } else {
            None
        }
    }
}

/// `s` split on every occurrence of `sep`; adjacent separators and
/// separators at the ends give empty pieces, as `str::split` does.
pub open spec fn split_on(s: Seq<char>, sep: char) -> Seq<Seq<char>>
    decreases s.len(),
{
    if s.len() == 0 {
        seq![Seq::<char>::empty()]
    } else if s[0] == sep {
        seq![Seq::<char>::empty()] + split_on(s.drop_first(), sep)
    } else {
        let rest = split_on(s.drop_first(), sep);
        seq![seq![s[0]] + rest[0]] + rest.skip(1)
    }
}

proof fn lemma_split_head(s: Seq<char>, sep: char, m: int)
    requires
        0 <= m <= s.len(),
        forall|k: int| 0 <= k < m ==> s[k] != sep,
        m == s.len() || s[m] == sep,
    ensures
        m == s.len() ==> split_on(s, sep) == seq![s],
        m < s.len() ==> split_on(s, sep) == seq![s.take(m)] + split_on(s.skip(m + 1), sep),
    decreases m,
{
    if m == 0 {
        if s.len() == 0 {
            assert(seq![Seq::<char>::empty()] =~~= seq![s]);
        } else {
            assert(s[0] == sep);
            assert(s.take(0) =~= Seq::<char>::empty());
            assert(s.skip(1) =~= s.drop_first());
            assert(seq![Seq::<char>::empty()] + split_on(s.drop_first(), sep) =~~= seq![s.take(0)]
                + split_on(s.skip(1), sep));
        }
    } else {
        let d = s.drop_first();
        lemma_split_head(d, sep, m - 1);
        let rest = split_on(d, sep);
        if m == s.len() {
            assert(rest == seq![d]);
            assert(seq![s[0]] + d =~= s);
            assert(rest.skip(1) =~= Seq::<Seq<char>>::empty());
            assert(seq![seq![s[0]] + rest[0]] + rest.skip(1) =~~= seq![s]);
        } else {
            assert(rest == seq![d.take(m - 1)] + split_on(d.skip(m), sep));
            assert(rest[0] == d.take(m - 1));
            assert(seq![s[0]] + d.take(m - 1) =~= s.take(m));
            assert(rest.skip(1) =~= split_on(d.skip(m), sep));
            assert(d.skip(m) =~= s.skip(m + 1));
            assert(seq![seq![s[0]] + rest[0]] + rest.skip(1) =~~= seq![s.take(m)] + split_on(
                s.skip(m + 1),
                sep,
            ));
        }
    }
}

/// Splits `s` on every occurrence of `sep`, as owned strings.
pub fn split_list(s: &str, sep: char) -> (parts: Vec<String>)
    ensures
        parts.deep_view() == split_on(s@, sep),
{
    let n: usize = s.unicode_len();
    let mut parts: Vec<String> = Vec::new();
    let mut i: usize = 0;
    proof {
        assert(s@.skip(0) =~= s@);
        assert(parts.deep_view() =~= Seq::<Seq<char>>::empty());
    }
    loop
        invariant_except_break
            split_on(s@, sep) == parts.deep_view() + split_on(s@.skip(i as int), sep),
        invariant
            0 <= i <= n,
            n == s@.len(),
        ensures
            parts.deep_view() == split_on(s@, sep),
        decreases n - i,
    {
        let ghost prev = parts.deep_view();
        let mut j: usize = i;
        loop
            invariant
                i <= j <= n,
                n == s@.len(),
                forall|q: int| i <= q < j ==> s@[q] != sep,
            ensures
                i <= j <= n,
                forall|q: int| i <= q < j ==> s@[q] != sep,
                j == n || s@[j as int] == sep,
            decreases n - j,
        {
            if j < n {
                if s.get_char(j) != sep {
                    j = j + 1;
                } else {
                    break ;
                }
            } else {
                break ;
            }
        }
        let seg = String::from_str(s.substring_char(i, j));
        parts.push(seg);
        proof {
            let tail = s@.skip(i as int);
            assert(seg@ =~= tail.take(j - i));
            lemma_split_head(tail, sep, j - i);
            assert(parts.deep_view() =~= prev + seq![seg@]);
        }
        if j == n {
            proof {
                assert(seg@ =~= s@.skip(i as int));
                assert(prev + seq![s@.skip(i as int)] =~= parts.deep_view());
            }
            break ;
        } else {
            proof {
                let tail = s@.skip(i as int);
                assert(tail.skip(j - i + 1) =~= s@.skip(j + 1));
                assert(prev + (seq![seg@] + split_on(s@.skip(j + 1), sep)) =~= parts.deep_view()
                    + split_on(s@.skip(j + 1), sep));
            }
            i = j + 1;
        }
    }
    parts
}

/// The name of the session cookie, as `name=` prefix of one cookie pair.
pub open spec fn cookie_prefix() -> Seq<char> {
    "wpikzbiorauth="@
}

/// The bearer token carried by one `;`-separated cookie fragment, if the
/// fragment is the session cookie.  Every such cookie contributes a
/// candidate, its value taken verbatim — an empty value included.
pub open spec fn cookie_value(pair: Seq<char>) -> Option<Seq<char>> {
    let t = trim_s(pair);
    if has_prefix(t, cookie_prefix()) {
        Some(t.skip(14))
    } else {
        None
    }
}

fn starts_with_exact(s: &str, p: &str) -> (r: bool)
    ensures
        r == has_prefix(s@, p@),
{
    let n: usize = s.unicode_len();
    let m: usize = p.unicode_len();
    if n < m {
        return false;
    }
    let mut k: usize = 0;
    while k < m
        invariant
            0 <= k <= m,
            m <= n,
            n == s@.len(),
            m == p@.len(),
            forall|q: int| 0 <= q < k ==> s@[q] == p@[q],
        decreases m - k,
    {
        if s.get_char(k) != p.get_char(k) {
            proof {
                assert(s@.take(m as int)[k as int] != p@[k as int]);
            }
            return false;
        }
        k = k + 1;
    }
    proof {
        assert(s@.take(m as int) =~= p@);
    }
    true
}

/// Extracts the session-cookie value from one cookie fragment, if
/// present.
pub fn cookie_bearer_of_pair(pair: &str) -> (r: Option<String>)
    ensures
        match r {
            Some(v) => cookie_value(pair@) == Some(v@),
            None => cookie_value(pair@) is None,
        },
{
    proof {
        reveal_strlit("wpikzbiorauth=");
    }
    let t = trim_str(pair);
    let tn: usize = t.as_str().unicode_len();
    if starts_with_exact(t.as_str(), "wpikzbiorauth=") {
        let v = t.as_str().substring_char(14, tn);
        Some(String::from_str(v))
    } else {
        None
    }
}

/// The candidates contributed by the authorization header values, in order:
/// each value is trimmed and classified, unrecognized ones are dropped.
pub open spec fn header_candidates(hs: Seq<Seq<char>>) -> Seq<SpecCredential>
    decreases hs.len(),
{
    if hs.len() == 0 {
        Seq::<SpecCredential>::empty()
    } else {
        let head = match classify_s(trim_s(hs[0])) {
            Some(c) => seq![c],
            None => Seq::<SpecCredential>::empty(),
        };
        head + header_candidates(hs.drop_first())
    }
}

/// The bearer candidates contributed by the fragments of one cookie header
/// value, in order.
pub open spec fn pairs_bearers(ps: Seq<Seq<char>>) -> Seq<SpecCredential>
    decreases ps.len(),
{
    if ps.len() == 0 {
        Seq::<SpecCredential>::empty()
    } else {
        let head = match cookie_value(ps[0]) {
            Some(v) => seq![SpecCredential::Bearer(v)],
            None => Seq::<SpecCredential>::empty(),
        };
        head + pairs_bearers(ps.drop_first())
    }
}

/// The candidates contributed by the cookie header values, in order.
pub open spec fn cookie_candidates(cs: Seq<Seq<char>>) -> Seq<SpecCredential>
    decreases cs.len(),
{
    if cs.len() == 0 {
        Seq::<SpecCredential>::empty()
    } else {
        pairs_bearers(split_on(cs[0], ';')) + cookie_candidates(cs.drop_first())
    }
}

/// Every candidate credential of a request, in the order encountered:
/// authorization header values first, then session-cookie values.
pub open spec fn candidates(auths: Seq<Seq<char>>, cookies: Seq<Seq<char>>) -> Seq<
    SpecCredential,
> {
    header_candidates(auths) + cookie_candidates(cookies)
}

/// The first Basic candidate, if any.
pub open spec fn first_basic(cs: Seq<SpecCredential>) -> Option<SpecCredential>
    decreases cs.len(),
{
    if cs.len() == 0 {
        None
    } else if cs[0] is Basic {
        Some(cs[0])
    } else {
        first_basic(cs.drop_first())
    }
}

/// The first Bearer candidate, if any.
pub open spec fn first_bearer(cs: Seq<SpecCredential>) -> Option<SpecCredential>
    decreases cs.len(),
{
    if cs.len() == 0 {
        None
    } else if cs[0] is Bearer {
        Some(cs[0])
    } else {
        first_bearer(cs.drop_first())
    }
}

/// The selection policy over a request's headers: the first Basic candidate
/// if any Basic candidate exists, else the first Bearer candidate, else
/// nothing ("no credentials").
pub open spec fn resolve_s(auths: Seq<Seq<char>>, cookies: Seq<Seq<char>>) -> Option<
    SpecCredential,
> {
    let cs = candidates(auths, cookies);
    if first_basic(cs) is Some {
        first_basic(cs)
    } else {
        first_bearer(cs)
    }
}

proof fn lemma_first_basic_drop(cs: Seq<SpecCredential>, i: int)
    requires
        0 <= i < cs.len(),
        !(cs[i] is Basic),
    ensures
        first_basic(cs.skip(i)) == first_basic(cs.skip(i + 1)),
{
    assert(cs.skip(i)[0] == cs[i]);
    assert(cs.skip(i).drop_first() =~= cs.skip(i + 1));
}

/// Collects every candidate credential of a request, in order.
pub fn collect_candidates(auth_headers: &Vec<String>, cookie_headers: &Vec<String>) -> (cands: Vec<
    AuthScheme,
>)
    ensures
        cands.deep_view() == candidates(auth_headers.deep_view(), cookie_headers.deep_view()),
{
    let ghost auths = auth_headers.deep_view();
    let ghost cooks = cookie_headers.deep_view();
    let mut cands: Vec<AuthScheme> = Vec::new();
    let mut hi: usize = 0;
    proof {
        assert(auths.skip(0) =~= auths);
        assert(cands.deep_view() + header_candidates(auths) =~= header_candidates(auths));
    }
    while hi < auth_headers.len()
        invariant
            0 <= hi <= auth_headers.len(),
            auths == auth_headers.deep_view(),
            header_candidates(auths) == cands.deep_view() + header_candidates(
                auths.skip(hi as int),
            ),
        decreases auth_headers.len() - hi,
    {
        let ghost prev = cands.deep_view();
        let t = trim_str(auth_headers[hi].as_str());
        let c = AuthScheme::from_header(t.as_str());
        proof {
            assert(auths.skip(hi as int)[0] == auths[hi as int]);
            assert(auths.skip(hi as int).drop_first() =~= auths.skip(hi as int + 1));
        }
        match c {
            Some(cred) => {
                cands.push(cred);
                proof {
                    assert(cands.deep_view() =~= prev + seq![cred@]);
                    assert(prev + (seq![cred@] + header_candidates(auths.skip(hi as int + 1)))
                        =~= cands.deep_view() + header_candidates(auths.skip(hi as int + 1)));
                }
            },
            None => {
                proof {
                    assert(Seq::<SpecCredential>::empty() + header_candidates(
                        auths.skip(hi as int + 1),
                    ) =~= header_candidates(auths.skip(hi as int + 1)));
                }
            },
        }
        hi = hi + 1;
    }
    proof {
        assert(auths.skip(auth_headers.len() as int) =~= Seq::<Seq<char>>::empty());
        assert(header_candidates(auths) =~= cands.deep_view());
        assert(cooks.skip(0) =~= cooks);
    }
    let ghost auth_part = cands.deep_view();
    let mut ci: usize = 0;
    proof {
        assert(cands.deep_view() + cookie_candidates(cooks) =~= auth_part + cookie_candidates(
            cooks,
        ));
    }
    while ci < cookie_headers.len()
        invariant
            0 <= ci <= cookie_headers.len(),
            cooks == cookie_headers.deep_view(),
            auth_part == header_candidates(auth_headers.deep_view()),
            auth_part + cookie_candidates(cooks) == cands.deep_view() + cookie_candidates(
                cooks.skip(ci as int),
            ),
        decreases cookie_headers.len() - ci,
    {
        let parts = split_list(cookie_headers[ci].as_str(), ';');
        let ghost pv = parts.deep_view();
        proof {
            assert(cooks.skip(ci as int)[0] == cooks[ci as int]);
            assert(cooks.skip(ci as int).drop_first() =~= cooks.skip(ci as int + 1));
            assert(pv.skip(0) =~= pv);
        }
        let mut pi: usize = 0;
        while pi < parts.len()
            invariant
                0 <= pi <= parts.len(),
                pv == parts.deep_view(),
                cooks == cookie_headers.deep_view(),
                0 <= ci < cooks.len(),
                pv == split_on(cooks[ci as int], ';'),
                auth_part + cookie_candidates(cooks) == cands.deep_view() + pairs_bearers(
                    pv.skip(pi as int),
                ) + cookie_candidates(cooks.skip(ci as int + 1)),
            decreases parts.len() - pi,
        {
            let ghost prev = cands.deep_view();
            let v = cookie_bearer_of_pair(parts[pi].as_str());
            proof {
                assert(pv.skip(pi as int)[0] == pv[pi as int]);
                assert(pv.skip(pi as int).drop_first() =~= pv.skip(pi as int + 1));
            }
            match v {
                Some(val) => {
                    let cred = AuthScheme::Bearer(val);
                    cands.push(cred);
                    proof {
                        assert(cands.deep_view() =~= prev + seq![cred@]);
                        assert(prev + (seq![cred@] + pairs_bearers(pv.skip(pi as int + 1)))
                            + cookie_candidates(cooks.skip(ci as int + 1)) =~= cands.deep_view()
                            + pairs_bearers(pv.skip(pi as int + 1)) + cookie_candidates(
                            cooks.skip(ci as int + 1),
                        ));
                    }
                },
                None => {
                    proof {
                        assert(Seq::<SpecCredential>::empty() + pairs_bearers(
                            pv.skip(pi as int + 1),
                        ) =~= pairs_bearers(pv.skip(pi as int + 1)));
                    }
                },
            }
            pi = pi + 1;
        }
        proof {
            assert(pv.skip(parts.len() as int) =~= Seq::<Seq<char>>::empty());
            assert(cands.deep_view() + Seq::<SpecCredential>::empty() + cookie_candidates(
                cooks.skip(ci as int + 1),
            ) =~= cands.deep_view() + cookie_candidates(cooks.skip(ci as int + 1)));
        }
        ci = ci + 1;
    }
    proof {
        assert(cooks.skip(cookie_headers.len() as int) =~= Seq::<Seq<char>>::empty());
        assert(auth_part + cookie_candidates(cooks) =~= cands.deep_view());
        assert(cands.deep_view() =~= candidates(auths, cooks));
    }
    cands
}

/// Resolves a request's headers to at most one credential to attempt:
/// Basic beats Bearer, earlier beats later.
pub fn resolve(auth_headers: &Vec<String>, cookie_headers: &Vec<String>) -> (r: Option<AuthScheme>)
    ensures
        view_opt(r) == resolve_s(auth_headers.deep_view(), cookie_headers.deep_view()),
{
    let cands = collect_candidates(auth_headers, cookie_headers);
    let ghost cs = cands.deep_view();
    let mut bearer: Option<AuthScheme> = None;
    let mut idx: usize = 0;
    proof {
        assert(cs.skip(0) =~= cs);
    }
    while idx < cands.len()
        invariant
            0 <= idx <= cands.len(),
            cs == cands.deep_view(),
            cs == candidates(auth_headers.deep_view(), cookie_headers.deep_view()),
            first_basic(cs) == first_basic(cs.skip(idx as int)),
            match bearer {
                Some(b) => first_bearer(cs) == Some(b@),
                None => first_bearer(cs) == first_bearer(cs.skip(idx as int)),
            },
        decreases cands.len() - idx,
    {
        proof {
            assert(cs.skip(idx as int)[0] == cs[idx as int]);
            assert(cs[idx as int] == cands@[idx as int]@);
        }
        match &cands[idx] {
            AuthScheme::Basic(_) => {
                let c = cands[idx].clone_scheme();
                proof {
                    assert(c@ == cs[idx as int]);
                    assert(first_basic(cs.skip(idx as int)) == Some(cs[idx as int]));
                }
                return Some(c);
            },
            AuthScheme::Bearer(_) => {
                proof {
                    lemma_first_basic_drop(cs, idx as int);
                }
                if bearer.is_none() {
                    let ghost b = cs[idx as int];
                    proof {
                        assert(first_bearer(cs.skip(idx as int)) == Some(b));
                    }
                    let c = cands[idx].clone_scheme();
                    proof {
                        assert(c@ == b);
                    }
                    bearer = Some(c);
                }
            },
        }
        idx = idx + 1;
    }
    proof {
        assert(cs.skip(cands.len() as int) =~= Seq::<SpecCredential>::empty());
    }
    bearer
}

impl AuthScheme {
    /// An explicit copy of the candidate.
    pub fn clone_scheme(&self) -> (r: AuthScheme)
        ensures
            r@ == self@,
    {
        match self {
            AuthScheme::Basic(s) => AuthScheme::Basic(s.clone()),
            AuthScheme::Bearer(s) => AuthScheme::Bearer(s.clone()),
        }
    }
}

proof fn lemma_first_basic_at(cs: Seq<SpecCredential>, i: int)
    requires
        0 <= i < cs.len(),
        cs[i] is Basic,
        forall|j: int| 0 <= j < i ==> !(cs[j] is Basic),
    ensures
        first_basic(cs) == Some(cs[i]),
    decreases i,
{
    if i == 0 {
    } else {
        assert(!(cs[0] is Basic));
        let d = cs.drop_first();
        assert(d[i - 1] == cs[i]);
        assert(forall|j: int| 0 <= j < i - 1 ==> d[j] == cs[j + 1] && !(d[j] is Basic));
        lemma_first_basic_at(d, i - 1);
    }
}

/// Law: Basic beats Bearer.  If any candidate extracted from the request is
/// a Basic credential, resolution picks the first such Basic candidate, and
/// never falls back to a Bearer candidate — not even when Bearer candidates
/// stand earlier or later in the request.
pub proof fn lemma_basic_beats_bearer(auths: Seq<Seq<char>>, cookies: Seq<Seq<char>>, i: int)
    requires
        0 <= i < candidates(auths, cookies).len(),
        candidates(auths, cookies)[i] is Basic,
        forall|j: int| 0 <= j < i ==> !(candidates(auths, cookies)[j] is Basic),
    ensures
        resolve_s(auths, cookies) == Some(candidates(auths, cookies)[i]),
{
    lemma_first_basic_at(candidates(auths, cookies), i);
}

proof fn lemma_header_candidates_none(hs: Seq<Seq<char>>)
    requires
        forall|k: int| 0 <= k < hs.len() ==> classify_s(trim_s(hs[k])) is None,
    ensures
        header_candidates(hs) == Seq::<SpecCredential>::empty(),
    decreases hs.len(),
{
    if hs.len() == 0 {
    } else {
        assert(classify_s(trim_s(hs[0])) is None);
        let d = hs.drop_first();
        assert(forall|k: int| 0 <= k < d.len() ==> d[k] == hs[k + 1] && classify_s(trim_s(d[k]))
            is None);
        lemma_header_candidates_none(d);
        assert(Seq::<SpecCredential>::empty() + Seq::<SpecCredential>::empty()
            =~= Seq::<SpecCredential>::empty());
    }
}

/// Law: a request whose authorization header values all carry unrecognized
/// schemes, and which has no cookie header, resolves to "no credentials" —
/// a normal outcome, not an error.
pub proof fn lemma_unrecognized_yields_no_credentials(auths: Seq<Seq<char>>, cookies: Seq<Seq<char>>)
    requires
        forall|k: int| 0 <= k < auths.len() ==> classify_s(trim_s(auths[k])) is None,
        cookies.len() == 0,
    ensures
        resolve_s(auths, cookies) is None,
{
    lemma_header_candidates_none(auths);
    assert(candidates(auths, cookies) =~= Seq::<SpecCredential>::empty());
}

} // verus!
