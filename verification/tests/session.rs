use identity_core::phonetic_key::get_random_id;
use identity_core::phonetic_key::ID_LEN;
use identity_core::session::get_session_id;
use identity_core::session::Cookie;
use identity_core::session::CookieJar;
use identity_core::session::SameSitePolicy;

const CONSONANTS: &str = "bdfghkmnprstvz";
const VOWELS: &str = "aeiou";

fn assert_valid_identifier(id: &str) {
    assert_eq!(id.len(), ID_LEN);
    for (i, c) in id.chars().enumerate() {
        if i % 2 == 0 {
            assert!(CONSONANTS.contains(c), "position {} of {:?} is not a consonant", i, id);
        } else {
            assert!(VOWELS.contains(c), "position {} of {:?} is not a vowel", i, id);
        }
    }
}

fn session_cookie(value: &str) -> Cookie {
    Cookie {
        name: "session".to_string(),
        value: value.to_string(),
        domain: None,
        same_site: None,
        secure: false,
        permanent: false,
    }
}

#[test]
fn resolve_mints_and_stores() {
    let mut jar = CookieJar::new();
    let id = get_session_id(&mut jar);

    assert_valid_identifier(&id);
    assert_eq!(jar.get_private(&"session".to_string()), Some(id.clone()));

    assert_eq!(jar.cookies.len(), 1);
    let cookie = &jar.cookies[0];
    assert_eq!(cookie.name, "session".to_string());
    assert_eq!(cookie.value, id);
    assert_eq!(cookie.domain, Some(".dscv.it".to_string()));
    assert_eq!(cookie.same_site, Some(SameSitePolicy::Lax));
    assert!(cookie.secure);
    assert!(cookie.permanent);
}

#[test]
fn resolve_returns_existing_value() {
    let mut jar = CookieJar::new();
    jar.add_private(session_cookie("volim-token"));

    let id = get_session_id(&mut jar);
    assert_eq!(id, "volim-token".to_string());

    // The jar was not altered: still exactly the one cookie, unchanged.
    assert_eq!(jar.cookies.len(), 1);
    assert_eq!(jar.cookies[0].value, "volim-token".to_string());
    assert_eq!(jar.cookies[0].domain, None);
}

#[test]
fn resolve_reads_and_removes_no_other_cookie() {
    let mut jar = CookieJar::new();
    let mut theme = session_cookie("dark");
    theme.name = "theme".to_string();
    jar.add_private(theme);

    let id = get_session_id(&mut jar);
    assert_valid_identifier(&id);

    assert_eq!(jar.cookies.len(), 2);
    assert_eq!(jar.get_private(&"theme".to_string()), Some("dark".to_string()));
    assert_eq!(jar.get_private(&"session".to_string()), Some(id));
}

#[test]
fn most_recent_cookie_shadows() {
    let mut jar = CookieJar::new();
    jar.add_private(session_cookie("older"));
    jar.add_private(session_cookie("newer"));

    assert_eq!(jar.get_private(&"session".to_string()), Some("newer".to_string()));
    assert_eq!(get_session_id(&mut jar), "newer".to_string());
}

#[test]
fn missing_cookie_reads_as_none() {
    let jar = CookieJar::new();
    assert_eq!(jar.get_private(&"session".to_string()), None);
}

#[test]
fn random_ids_are_well_formed() {
    for _ in 0..64 {
        assert_valid_identifier(&get_random_id());
    }
}
