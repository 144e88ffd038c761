use std::collections::BTreeMap;

use bfte::node_app::app::NodeApp;
use bfte::node_app::hosted::AppModule;
use bfte::node_app::BlockCItemIdx;
use bfte::types::{ConsensusVersion, ModuleConfig, MODULE_KIND_CONSENSUS_CTRL, MODULE_KIND_META};
use bfte::ui::forms::{
    meta_value_message, module_kind_version_message, display_meta_value, MetaValue, MetaValueError, ModuleKindVersion, ModuleKindVersionError,
};
use bfte::node_app::hosted::ModuleTables;
use bfte::node_app::setup::setup_modules_to_static;
use bfte::ui::handlers::{
    get_meta_key, meta_key_page_location, module_page_location, post_add_peer_vote, post_meta_vote,
    post_remove_peer_vote, MetaKeyPage,
};
use bfte::ui::http::{
    cache_max_age_secs, consensus_init_redirect, hypermedia_error, login, password_matches,
    require_auth, root_cause, ErrorCause, ErrorResponse, HypermediaError, InitRedirect,
    InternalServerError, LoginAction, RequestError, SessionLookup, UserAuth, UserRequestError,
};
use bfte::ui::pages::{
    add_module_options, can_create_consensus, get_module_kind_name, get_peer_set, ModuleInitInfo, NavbarSelector,
};
use bfte::ui::text::parse_decimal;

fn kv(kind: u32, major: u16, minor: u16) -> ModuleKindVersion {
    ModuleKindVersion { kind, version: ConsensusVersion { major, minor } }
}

#[test]
fn decimal_parsing_follows_integer_parsing() {
    assert_eq!(parse_decimal(b"42", 100), Some(42));
    assert_eq!(parse_decimal(b"+7", 100), Some(7));
    assert_eq!(parse_decimal(b"101", 100), None);
    assert_eq!(parse_decimal(b"", 100), None);
    assert_eq!(parse_decimal(b"+", 100), None);
    assert_eq!(parse_decimal(b"-1", 100), None);
    assert_eq!(parse_decimal(b"1a", 100), None);
    assert_eq!(parse_decimal(b"4294967295", u32::MAX as u64), Some(4294967295));
    assert_eq!(parse_decimal(b"4294967296", u32::MAX as u64), None);
}

#[test]
fn module_kind_version_parsing() {
    assert_eq!(ModuleKindVersion::parse(b"1:0.3"), Ok(kv(1, 0, 3)));
    assert_eq!(ModuleKindVersion::parse(b"12:+2.65535"), Ok(kv(12, 2, 65535)));
    assert_eq!(ModuleKindVersion::parse(b"1"), Err(ModuleKindVersionError::InvalidModuleKindFormat));
    assert_eq!(ModuleKindVersion::parse(b"1:2:3"), Err(ModuleKindVersionError::InvalidModuleKindFormat));
    assert_eq!(ModuleKindVersion::parse(b"x:0.1"), Err(ModuleKindVersionError::InvalidModuleKind));
    assert_eq!(ModuleKindVersion::parse(b"1:0"), Err(ModuleKindVersionError::InvalidVersionFormat));
    assert_eq!(ModuleKindVersion::parse(b"1:0.1.2"), Err(ModuleKindVersionError::InvalidVersionFormat));
    assert_eq!(ModuleKindVersion::parse(b"1:70000.1"), Err(ModuleKindVersionError::InvalidMajorVersion));
    assert_eq!(ModuleKindVersion::parse(b"1:0.x"), Err(ModuleKindVersionError::InvalidMinorVersion));
}

#[test]
fn module_kind_version_text_round_trip() {
    for v in [kv(0, 0, 0), kv(1, 0, 1), kv(4294967295, 65535, 9), kv(10, 20, 300)] {
        let text = v.to_text();
        assert_eq!(ModuleKindVersion::parse(&text), Ok(v));
    }
    assert_eq!(kv(1, 2, 30).to_text(), b"1:2.30".to_vec());
}

#[test]
fn meta_value_parsing() {
    assert_eq!(MetaValue::parse(b"hello").unwrap().0, b"hello".to_vec());
    assert_eq!(MetaValue::parse(b"0xdeadBEEF").unwrap().0, vec![0xde, 0xad, 0xbe, 0xef]);
    assert_eq!(MetaValue::parse(b"0X00ff").unwrap().0, vec![0x00, 0xff]);
    assert_eq!(MetaValue::parse(b"0x").unwrap().0, Vec::<u8>::new());
    assert_eq!(MetaValue::parse(b"0xabc").unwrap_err(), MetaValueError::InvalidHex);
    assert_eq!(MetaValue::parse(b"0xzz").unwrap_err(), MetaValueError::InvalidHex);
    assert_eq!(MetaValue::parse(b"0").unwrap().0, b"0".to_vec());
}

#[test]
fn meta_value_display() {
    assert_eq!(display_meta_value("héllo".as_bytes()), "héllo".as_bytes().to_vec());
    assert_eq!(display_meta_value(&[0xff, 0x00, 0x1a]), b"0xff001a".to_vec());
    assert_eq!(display_meta_value(&[]), Vec::<u8>::new());
}

#[test]
fn meta_value_display_reads_back() {
    for v in [b"plain".to_vec(), vec![0xc3, 0x28], vec![0, 159, 146, 150], "ü".as_bytes().to_vec()] {
        let shown = display_meta_value(&v);
        assert_eq!(MetaValue::parse(&shown).unwrap().0, v);
    }
}

#[test]
fn cache_control_durations() {
    assert_eq!(cache_max_age_secs(b"text/css; charset=utf-8"), Some(600));
    assert_eq!(cache_max_age_secs(b"text/html; charset=utf-8"), None);
    assert_eq!(cache_max_age_secs(b"image/png"), Some(3600));
}

#[test]
fn consensus_init_redirects() {
    assert_eq!(consensus_init_redirect(true, b"/ui/init"), InitRedirect::RedirectToUi);
    assert_eq!(consensus_init_redirect(true, b"/ui/"), InitRedirect::Proceed);
    assert_eq!(consensus_init_redirect(false, b"/ui/init"), InitRedirect::Proceed);
    assert_eq!(consensus_init_redirect(false, b"/ui/login"), InitRedirect::Proceed);
    assert_eq!(consensus_init_redirect(false, b"/ui/module/0"), InitRedirect::RedirectToInit);
}

#[test]
fn hypermedia_error_pages() {
    assert_eq!(hypermedia_error(200, Some(b"application/json")), None);
    assert_eq!(hypermedia_error(404, Some(b"text/html")), None);
    assert_eq!(hypermedia_error(404, None), None);
    assert_eq!(hypermedia_error(422, Some(b"application/json")), Some(HypermediaError::InvalidData));
    assert_eq!(hypermedia_error(500, Some(b"text/plain")), Some(HypermediaError::ServerError));
}

#[test]
fn auth_lets_login_page_and_users_through() {
    assert!(require_auth("/ui/login", true, SessionLookup::Anonymous, None).is_ok());
    assert!(require_auth("/ui/", true, SessionLookup::Authenticated, None).is_ok());
    match require_auth("/ui/", true, SessionLookup::StoreError, None) {
        Err(RequestError::InternalServerError { msg }) => assert_eq!(msg, InternalServerError::SessionStore),
        other => panic!("unexpected {other:?}"),
    }
}

#[test]
fn auth_sends_anonymous_users_to_login() {
    match require_auth("/ui/module/3", true, SessionLookup::Anonymous, None) {
        Err(RequestError::LoginRequired { path }) => assert_eq!(path.as_deref(), Some("/ui/module/3")),
        other => panic!("unexpected {other:?}"),
    }
    match require_auth(
        "/ui/module/3/add_peer_vote",
        false,
        SessionLookup::Anonymous,
        Some("https://example.com/ui/module/3?tab=1"),
    ) {
        Err(RequestError::LoginRequired { path }) => assert_eq!(path.as_deref(), Some("/ui/module/3")),
        other => panic!("unexpected {other:?}"),
    }
    match require_auth("/ui/x", false, SessionLookup::Anonymous, Some("not a url")) {
        Err(RequestError::LoginRequired { path }) => assert_eq!(path, None),
        other => panic!("unexpected {other:?}"),
    }
}

#[test]
fn error_responses() {
    let e = RequestError::LoginRequired { path: Some("/ui/module/0 x".to_string()) };
    match e.into_response() {
        ErrorResponse::Redirect { location } => {
            assert_eq!(location, b"/ui/login?redirect=%2Fui%2Fmodule%2F0%20x".to_vec())
        }
        other => panic!("unexpected {other:?}"),
    }
    match (RequestError::LoginRequired { path: None }).into_response() {
        ErrorResponse::Redirect { location } => assert_eq!(location, b"/ui/login".to_vec()),
        other => panic!("unexpected {other:?}"),
    }
    let user = RequestError::User {
        source: vec![ErrorCause::Other, ErrorCause::User(UserRequestError::SomethingNotFound)],
    };
    assert_eq!(root_cause(&user), ErrorCause::User(UserRequestError::SomethingNotFound));
    match user.into_response() {
        ErrorResponse::Json { status, body } => {
            assert_eq!(status, 404);
            assert_eq!(body.message, "SomethingNotFound");
        }
        other => panic!("unexpected {other:?}"),
    }
    match (RequestError::Other { source: vec![ErrorCause::User(UserRequestError::InvalidData)] }).into_response() {
        ErrorResponse::Json { status, body } => {
            assert_eq!(status, 400);
            assert_eq!(body.message, "InvalidData");
        }
        other => panic!("unexpected {other:?}"),
    }
    match (RequestError::Other { source: vec![ErrorCause::Other] }).into_response() {
        ErrorResponse::Json { status, body } => {
            assert_eq!(status, 500);
            assert_eq!(body.message, "Internal Service Error");
        }
        other => panic!("unexpected {other:?}"),
    }
}

#[test]
fn password_check_trims_and_hashes() {
    let stored = *blake3::hash(b"secret").as_bytes();
    assert!(password_matches("secret", &stored));
    assert!(password_matches("  secret\n", &stored));
    assert!(!password_matches("secret2", &stored));
    assert!(!password_matches("", &stored));
}

#[test]
fn login_decisions() {
    let stored = *blake3::hash(b"pw").as_bytes();
    match login(false, None, "pw", None, &stored) {
        Ok(LoginAction::Login { location }) => assert_eq!(location, b"/ui/".to_vec()),
        other => panic!("unexpected {other:?}"),
    }
    match login(false, None, "pw", Some("/ui/module/1".to_string()), &stored) {
        Ok(LoginAction::Login { location }) => assert_eq!(location, b"/ui/module/1".to_vec()),
        other => panic!("unexpected {other:?}"),
    }
    match login(false, None, "nope", Some("/back".to_string()), &stored) {
        Err(RequestError::LoginRequired { path }) => assert_eq!(path.as_deref(), Some("/back")),
        other => panic!("unexpected {other:?}"),
    }
    match login(true, Some(" pw "), "new password", None, &stored) {
        Ok(LoginAction::ChangePasswordAndLogin { location }) => assert_eq!(location, b"/ui/".to_vec()),
        other => panic!("unexpected {other:?}"),
    }
    match login(true, None, "new password", None, &stored) {
        Err(RequestError::Other { source }) => assert_eq!(source, vec![ErrorCause::Other]),
        other => panic!("unexpected {other:?}"),
    }
    let _ = UserAuth::new();
}

#[test]
fn page_helpers() {
    assert_eq!(get_module_kind_name(MODULE_KIND_CONSENSUS_CTRL), Some("App Consensus"));
    assert_eq!(get_module_kind_name(MODULE_KIND_META), Some("Meta"));
    assert_eq!(get_module_kind_name(7), None);
    assert!(NavbarSelector::Consensus.is_consensus());
    assert!(NavbarSelector::Module(3).is_module());
    assert!(NavbarSelector::Module(3).is_module_id(3));
    assert!(!NavbarSelector::Module(3).is_module_id(4));
    assert_eq!(module_page_location(12), b"/ui/module/12".to_vec());
    assert_eq!(meta_key_page_location(1, 255), b"/ui/module/1/meta_key/255".to_vec());
}

#[test]
fn add_module_options_skip_existing_singletons() {
    let mut existing = BTreeMap::new();
    existing.insert(
        1,
        ModuleConfig { kind: MODULE_KIND_META, version: ConsensusVersion { major: 0, minor: 0 }, params: vec![] },
    );
    let mut meta_versions = BTreeMap::new();
    meta_versions.insert(0u16, 0u16);
    let mut other_versions = BTreeMap::new();
    other_versions.insert(1u16, 4u16);
    other_versions.insert(3u16, 2u16);
    // Given in any order, the options come in increasing order of kind.
    let mut infos = BTreeMap::new();
    infos.insert(6, ModuleInitInfo { kind: 6, singleton: false, supported_versions: BTreeMap::new() });
    infos.insert(5, ModuleInitInfo { kind: 5, singleton: false, supported_versions: other_versions });
    infos.insert(
        MODULE_KIND_META,
        ModuleInitInfo { kind: MODULE_KIND_META, singleton: true, supported_versions: meta_versions.clone() },
    );
    let options = add_module_options(&infos, &existing);
    assert_eq!(options.len(), 1);
    assert_eq!(options[0].kind_version, kv(5, 3, 2));
    let options = add_module_options(&infos, &BTreeMap::new());
    assert_eq!(options.len(), 2);
    assert_eq!(options[0].kind_version, kv(MODULE_KIND_META, 0, 0));
    assert_eq!(options[1].kind_version, kv(5, 3, 2));
}

#[test]
fn vote_forms_reach_modules() {
    let me = (1u128, 1u128);
    let peers = [me].into_iter().collect();
    let mut app = NodeApp::new(
        Some(me),
        [MODULE_KIND_CONSENSUS_CTRL, MODULE_KIND_META].into_iter().collect(),
        BTreeMap::new(),
        0,
        BlockCItemIdx::new(0),
    );
    app.start_modules(&peers).unwrap();
    let location = post_add_peer_vote(&mut app.modules, 0, (2, 2)).unwrap();
    assert_eq!(location, b"/ui/module/0".to_vec());
    match &app.modules[&0].inner {
        AppModule::ConsensusCtrl(m) => assert_eq!(m.db.pending_add_peer_vote, Some((2, 2))),
        AppModule::Meta(_) => panic!("module 0 must be the control module"),
    }
    // No meta module runs: nothing changes, the user goes back to the page.
    let location = post_meta_vote(&mut app.modules, 1, 3, vec![1]).unwrap();
    assert_eq!(location, b"/ui/module/1/meta_key/3".to_vec());
    assert!(!app.modules.contains_key(&1));
}

#[test]
fn meta_key_page_shows_value_and_votes() {
    let mut tables = bfte::meta::module::MetaModule::init_db_tx();
    tables.consensus_values.insert(3, vec![104, 105]);
    tables.key_value_votes.insert((3, (7, 7)), vec![104, 105]);
    tables.key_value_votes.insert((4, (8, 8)), vec![1]);
    let mut stored = BTreeMap::new();
    stored.insert(2u32, ModuleTables::Meta(tables));
    let mut configs = BTreeMap::new();
    configs.insert(2u32, ModuleConfig { kind: MODULE_KIND_META, version: ConsensusVersion { major: 0, minor: 0 }, params: vec![] });
    let inits: std::collections::BTreeSet<u32> = [MODULE_KIND_CONSENSUS_CTRL, MODULE_KIND_META].into_iter().collect();
    let mut modules = BTreeMap::new();
    assert!(setup_modules_to_static(&mut modules, &mut stored, &configs, &inits, None).unwrap());

    match get_meta_key(&modules, 2, 3) {
        MetaKeyPage::Voting { current_value, votes } => {
            assert_eq!(current_value, Some(vec![104, 105]));
            assert_eq!(votes.len(), 1);
            assert_eq!(votes.get(&(7, 7)), Some(&vec![104, 105]));
        }
        MetaKeyPage::Redirect { .. } => panic!("module 2 is a meta module"),
    }
    match get_meta_key(&modules, 2, 4) {
        MetaKeyPage::Voting { current_value, votes } => {
            assert_eq!(current_value, None);
            assert_eq!(votes.get(&(8, 8)), Some(&vec![1]));
        }
        MetaKeyPage::Redirect { .. } => panic!("module 2 is a meta module"),
    }
    match get_meta_key(&modules, 5, 3) {
        MetaKeyPage::Redirect { location } => assert_eq!(location, b"/ui/module/5".to_vec()),
        MetaKeyPage::Voting { .. } => panic!("module 5 does not run"),
    }
}

#[test]
fn remove_vote_form_reaches_control_module() {
    let me = (1u128, 1u128);
    let other = (2u128, 2u128);
    let peers = [me, other].into_iter().collect();
    let mut app = NodeApp::new(
        Some(me),
        [MODULE_KIND_CONSENSUS_CTRL, MODULE_KIND_META].into_iter().collect(),
        BTreeMap::new(),
        0,
        BlockCItemIdx::new(0),
    );
    app.start_modules(&peers).unwrap();
    let location = post_remove_peer_vote(&mut app.modules, 0, other).unwrap();
    assert_eq!(location, b"/ui/module/0".to_vec());
    match &app.modules[&0].inner {
        AppModule::ConsensusCtrl(m) => assert_eq!(m.db.pending_remove_peer_vote, Some(other)),
        AppModule::Meta(_) => panic!("module 0 must be the control module"),
    }
    // A peer that is not in the peer set needs no vote: nothing changes.
    assert!(post_remove_peer_vote(&mut app.modules, 0, (9, 9)).is_ok());
    match &app.modules[&0].inner {
        AppModule::ConsensusCtrl(m) => assert_eq!(m.db.pending_remove_peer_vote, Some(other)),
        AppModule::Meta(_) => panic!("module 0 must be the control module"),
    }
    // No module runs under this identifier: nothing changes.
    let location = post_remove_peer_vote(&mut app.modules, 7, other).unwrap();
    assert_eq!(location, b"/ui/module/7".to_vec());
}

#[test]
fn status_page_peer_set() {
    let me = (1u128, 1u128);
    let peers: std::collections::BTreeSet<(u128, u128)> = [me].into_iter().collect();
    let mut app = NodeApp::new(
        Some(me),
        [MODULE_KIND_CONSENSUS_CTRL, MODULE_KIND_META].into_iter().collect(),
        BTreeMap::new(),
        0,
        BlockCItemIdx::new(0),
    );
    assert_eq!(get_peer_set(&app.modules), None);
    app.start_modules(&peers).unwrap();
    assert_eq!(get_peer_set(&app.modules), Some(peers));
}

#[test]
fn consensus_creation_needs_secret_and_persistent_database() {
    assert!(can_create_consensus(true, false));
    assert!(!can_create_consensus(true, true));
    assert!(!can_create_consensus(false, false));
    assert!(!can_create_consensus(false, true));
}

fn kind_version_refusal(text: &str) -> String {
    let e = ModuleKindVersion::parse(text.as_bytes()).unwrap_err();
    String::from_utf8(module_kind_version_message(text.as_bytes(), e)).unwrap()
}

#[test]
fn form_refusal_messages() {
    assert_eq!(kind_version_refusal("3"), "Invalid module_kind format: 3");
    assert_eq!(kind_version_refusal("3:1:2"), "Invalid module_kind format: 3:1:2");
    assert_eq!(kind_version_refusal("x:1.2"), "Failed to parse module kind");
    assert_eq!(kind_version_refusal("3:1"), "Invalid version format: 1");
    assert_eq!(kind_version_refusal("3:1.2.3"), "Invalid version format: 1.2.3");
    assert_eq!(kind_version_refusal("3:65536.0"), "Failed to parse major version");
    assert_eq!(kind_version_refusal("3:1.x"), "Failed to parse minor version");
    for text in ["0xZZ", "0x414"] {
        let e = MetaValue::parse(text.as_bytes()).unwrap_err();
        assert_eq!(String::from_utf8(meta_value_message(text.as_bytes(), e)).unwrap(), format!("Invalid hex value: {text}"));
    }
}
