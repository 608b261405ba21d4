use aardbin::i18n::{all_keys, extract_lang_cookie, lookup, resolve, t, Lang};

#[test]
fn key_parity() {
    for k in all_keys() {
        assert!(lookup(Lang::En, k).is_some(), "EN missing key: {k}");
        assert!(lookup(Lang::Zh, k).is_some(), "ZH missing key: {k}");
    }
}

#[test]
fn resolve_cookie_wins() {
    assert_eq!(resolve(Some("zh"), Some("en-US")), Lang::Zh);
    assert_eq!(resolve(Some("en"), Some("zh-CN")), Lang::En);
}

#[test]
fn resolve_accept_language() {
    assert_eq!(resolve(None, Some("zh-CN,zh;q=0.9,en;q=0.8")), Lang::Zh);
    assert_eq!(resolve(None, Some("en-US,en;q=0.9")), Lang::En);
}

#[test]
fn resolve_default_en() {
    assert_eq!(resolve(None, None), Lang::En);
    assert_eq!(resolve(None, Some("fr,de;q=0.9")), Lang::En);
}

#[test]
fn fallback_to_en_for_missing_key() {
    assert_eq!(t(Lang::En, "nonexistent.key"), "nonexistent.key");
}

#[test]
fn extract_cookie_works() {
    assert_eq!(
        extract_lang_cookie(Some("other=x; aardbin_lang=zh; more=y")),
        Some("zh")
    );
    assert_eq!(extract_lang_cookie(Some("other=x")), None);
    assert_eq!(extract_lang_cookie(None), None);
}

#[test]
fn translations() {
    assert_eq!(t(Lang::En, "nav.logout"), "Logout");
    assert_eq!(t(Lang::Zh, "nav.logout"), "退出");
    assert_eq!(t(Lang::Zh, "records.untitled"), "无标题");
    assert_eq!(t(Lang::Zh, "nonexistent.key"), "nonexistent.key");
    assert_eq!(all_keys().len(), 46);
    assert_eq!(Lang::Zh.as_str(), "zh");
    assert_eq!(Lang::Zh.html_attr(), "zh-CN");
    assert_eq!(Lang::En.html_attr(), "en");
}

#[test]
fn resolve_details() {
    assert_eq!(resolve(Some(" zh-cn "), None), Lang::Zh);
    assert_eq!(resolve(Some("de"), Some("ZH-TW")), Lang::Zh);
    assert_eq!(resolve(None, Some("fr;q=1, zh")), Lang::Zh);
    assert_eq!(resolve(None, Some("")), Lang::En);
    assert_eq!(
        extract_lang_cookie(Some("aardbin_lang=en;aardbin_lang=zh")),
        Some("en")
    );
    assert_eq!(extract_lang_cookie(Some("  aardbin_lang=zh  ")), Some("zh"));
}
