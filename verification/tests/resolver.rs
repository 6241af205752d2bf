use zbiorauth::resolver::AuthScheme;
use zbiorauth::resolver::cookie_bearer_of_pair;
use zbiorauth::resolver::resolve;
use zbiorauth::resolver::split_list;
use zbiorauth::resolver::trim_str;

#[test]
fn trim_removes_outer_whitespace() {
    assert_eq!(trim_str("  a b \t"), "a b");
    assert_eq!(trim_str("\r\nx\n"), "x");
    assert_eq!(trim_str("   "), "");
    assert_eq!(trim_str(""), "");
    assert_eq!(trim_str("plain"), "plain");
}

#[test]
fn split_list_keeps_empty_pieces() {
    let parts = split_list("a;b;;c", ';');
    assert_eq!(parts, vec!["a", "b", "", "c"]);
    assert_eq!(split_list("", ';'), vec![""]);
    assert_eq!(split_list(";", ';'), vec!["", ""]);
    assert_eq!(split_list("solo", ';'), vec!["solo"]);
}

#[test]
fn from_header_classifies_schemes() {
    assert!(matches!(AuthScheme::from_header("Basic abc"), Some(AuthScheme::Basic(p)) if p == "abc"));
    assert!(matches!(AuthScheme::from_header("basic abc"), Some(AuthScheme::Basic(p)) if p == "abc"));
    assert!(matches!(AuthScheme::from_header("BASIC abc"), Some(AuthScheme::Basic(p)) if p == "abc"));
    assert!(matches!(AuthScheme::from_header("Bearer tok"), Some(AuthScheme::Bearer(t)) if t == "tok"));
    assert!(matches!(AuthScheme::from_header("bEaReR tok"), Some(AuthScheme::Bearer(t)) if t == "tok"));
    assert!(AuthScheme::from_header("Negotiate xyz").is_none());
    assert!(AuthScheme::from_header("Basic").is_none());
    assert!(AuthScheme::from_header("").is_none());
    // An empty payload after the scheme prefix still counts as a payload.
    assert!(matches!(AuthScheme::from_header("Basic "), Some(AuthScheme::Basic(p)) if p == ""));
}

#[test]
fn cookie_pair_extracts_session_cookie() {
    assert_eq!(cookie_bearer_of_pair(" wpikzbiorauth=tok "), Some(String::from("tok")));
    assert_eq!(cookie_bearer_of_pair("other=tok"), None);
    // Every session cookie contributes its value, the empty one included.
    assert_eq!(cookie_bearer_of_pair("wpikzbiorauth="), Some(String::from("")));
    // The cookie name is matched exactly, case-sensitively.
    assert_eq!(cookie_bearer_of_pair("WPIKZBIORAUTH=tok"), None);
    assert_eq!(cookie_bearer_of_pair("wpikzbiorauthx=tok"), None);
}

#[test]
fn empty_cookie_value_is_a_candidate_in_scan_order() {
    // The first session cookie wins even when its value is empty: a later
    // cookie must not overtake it.
    let cookies = vec![String::from("wpikzbiorauth=; wpikzbiorauth=tok")];
    let r = resolve(&vec![], &cookies);
    assert!(matches!(r, Some(AuthScheme::Bearer(t)) if t == ""));
}

#[test]
fn basic_beats_bearer_in_resolution() {
    // Both a Basic header and a session cookie: the Basic one is picked,
    // whatever their order, and the Bearer path is not offered at all.
    let auths = vec![String::from("Bearer early"), String::from("Basic abc")];
    let cookies = vec![String::from("wpikzbiorauth=fromcookie")];
    let r = resolve(&auths, &cookies);
    assert!(matches!(r, Some(AuthScheme::Basic(p)) if p == "abc"));
}

#[test]
fn first_basic_wins_among_several() {
    let auths = vec![
        String::from("Basic first"),
        String::from("Basic second"),
        String::from("Bearer tok"),
    ];
    let r = resolve(&auths, &vec![]);
    assert!(matches!(r, Some(AuthScheme::Basic(p)) if p == "first"));
}

#[test]
fn first_bearer_wins_without_basic() {
    let auths = vec![String::from("Bearer one"), String::from("Bearer two")];
    let r = resolve(&auths, &vec![]);
    assert!(matches!(r, Some(AuthScheme::Bearer(t)) if t == "one"));
}

#[test]
fn header_bearer_precedes_cookie_bearer() {
    let auths = vec![String::from("Bearer header")];
    let cookies = vec![String::from("wpikzbiorauth=cookie")];
    let r = resolve(&auths, &cookies);
    assert!(matches!(r, Some(AuthScheme::Bearer(t)) if t == "header"));
}

#[test]
fn cookie_alone_yields_bearer() {
    let cookies = vec![String::from("foo=1; wpikzbiorauth=tok; bar=2")];
    let r = resolve(&vec![], &cookies);
    assert!(matches!(r, Some(AuthScheme::Bearer(t)) if t == "tok"));
}

#[test]
fn unrecognized_scheme_yields_no_credentials() {
    // An unrecognized authorization scheme and no cookie: "no credentials",
    // not an error.
    let auths = vec![String::from("Negotiate xyz")];
    let r = resolve(&auths, &vec![]);
    assert!(r.is_none());
}

#[test]
fn empty_request_yields_no_credentials() {
    assert!(resolve(&vec![], &vec![]).is_none());
}

#[test]
fn untrimmed_basic_header_is_recognized() {
    let auths = vec![String::from("  Basic abc  ")];
    let r = resolve(&auths, &vec![]);
    assert!(matches!(r, Some(AuthScheme::Basic(p)) if p == "abc"));
}

#[test]
fn non_ascii_payloads_pass_through_untouched() {
    let r = resolve(&vec![String::from("Basic żółć:hasło")], &vec![]);
    assert!(matches!(r, Some(AuthScheme::Basic(p)) if p == "żółć:hasło"));
    let cookies = vec![String::from("wpikzbiorauth=znaczki≠ascii")];
    let r = resolve(&vec![], &cookies);
    assert!(matches!(r, Some(AuthScheme::Bearer(t)) if t == "znaczki≠ascii"));
}
