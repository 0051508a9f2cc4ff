use answeredthis::calendar::month_year_label;
use answeredthis::decimal::{int_to_decimal, parse_post_id};
use answeredthis::site::{
    access_token_url, authorize_url, edit_action, is_site_owner, login_action, new_post_action,
    server_port, user_url, EditAction, LoginAction, NewPostAction,
};
use answeredthis::site::{access_token_from, login_from, session_for_login};
use answeredthis::text::same_text;
use answeredthis::NewPost;

#[test]
fn decimal_text_of_ids() {
    assert_eq!(int_to_decimal(0), "0");
    assert_eq!(int_to_decimal(42), "42");
    assert_eq!(int_to_decimal(-5), "-5");
    assert_eq!(int_to_decimal(i32::MAX), "2147483647");
    assert_eq!(int_to_decimal(i32::MIN), "-2147483648");
}

#[test]
fn parse_ids_like_std() {
    let cases = [
        "42", "+7", "-0", "", "-", "+", "2147483647", "2147483648", "-2147483648", "-2147483649",
        "0002", " 1", "1 ", "4x", "99999999999999999999", "--1", "+-1", "٣",
    ];
    for c in cases {
        assert_eq!(parse_post_id(c), c.parse::<i32>().ok(), "{:?}", c);
    }
}

#[test]
fn ids_read_back() {
    for n in [0, 1, -1, 9, 10, -10, 12345, i32::MAX, i32::MIN] {
        assert_eq!(parse_post_id(&int_to_decimal(n)), Some(n));
    }
}

#[test]
fn month_year_labels() {
    assert_eq!(month_year_label(2017, 3), "March 2017");
    assert_eq!(month_year_label(2024, 12), "December 2024");
    assert_eq!(month_year_label(999, 1), "January 0999");
    assert_eq!(month_year_label(0, 2), "February 0000");
    assert_eq!(month_year_label(-1, 9), "September -0001");
    assert_eq!(month_year_label(10000, 5), "May +10000");
}

#[test]
fn month_names_all() {
    let names = [
        "January", "February", "March", "April", "May", "June", "July", "August", "September",
        "October", "November", "December",
    ];
    for (k, name) in names.iter().enumerate() {
        assert_eq!(month_year_label(2000, k as u32 + 1), format!("{} 2000", name));
    }
}

#[test]
fn github_urls() {
    assert_eq!(
        authorize_url("KEY", "http://cb"),
        "https://github.com/login/oauth/authorize?client_id=KEY&redirect_uri=http://cb"
    );
    assert_eq!(
        access_token_url("KEY", "SECRET", "c0de"),
        "https://github.com/login/oauth/access_token?client_id=KEY&client_secret=SECRET&code=c0de"
    );
    assert_eq!(user_url("tok"), "https://api.github.com/user?access_token=tok");
}

#[test]
fn only_owner_signs_in() {
    assert!(is_site_owner("tcr"));
    assert!(!is_site_owner("tcr2"));
    assert!(!is_site_owner("TCR"));
    assert!(!is_site_owner(""));
}

#[test]
fn route_decisions() {
    assert_eq!(login_action(true), LoginAction::Home);
    assert_eq!(login_action(false), LoginAction::SignIn);
    assert_eq!(new_post_action(true), NewPostAction::Create);
    assert_eq!(new_post_action(false), NewPostAction::SignIn);
    assert_eq!(edit_action(false, "3"), EditAction::SignIn);
    assert_eq!(edit_action(true, "3"), EditAction::Update { id: 3 });
    assert_eq!(edit_action(true, "three"), EditAction::BadId);
}

#[test]
fn edit_of_shown_id_updates_that_post() {
    let shown = int_to_decimal(-17);
    assert_eq!(edit_action(true, &shown), EditAction::Update { id: -17 });
}

#[test]
fn ports() {
    assert_eq!(server_port(true), 80);
    assert_eq!(server_port(false), 8000);
}

#[test]
fn text_comparison() {
    assert!(same_text("abc", "abc"));
    assert!(!same_text("abc", "abd"));
    assert!(!same_text("ab", "abc"));
}

#[test]
fn new_post_holds_fields() {
    let label = month_year_label(2017, 3);
    let p = NewPost { title: "t", asof: &label, content: "c" };
    assert_eq!(p.asof, "March 2017");
    assert_eq!(p.title, "t");
}

#[test]
fn github_replies() {
    assert_eq!(
        access_token_from(br#"{"access_token":"abc","token_type":"bearer"}"#),
        Some("abc".to_string())
    );
    assert_eq!(access_token_from(br#"{"error":"bad_verification_code"}"#), None);
    assert_eq!(access_token_from(b"not json"), None);
    assert_eq!(login_from(br#"{"login":"tcr","id":1}"#), Some("tcr".to_string()));
    assert_eq!(login_from(br#"{"login":7}"#), None);
}

#[test]
fn owner_sign_in_gives_session_and_login_goes_home() {
    let session = session_for_login("tcr");
    assert_eq!(session, Some("tcr".to_string()));
    assert_eq!(login_action(session.is_some()), LoginAction::Home);
    assert_eq!(session_for_login("someone"), None);
}
