use k1f_bot::menu::MenuAction;

#[test]
fn round_trip_all_variants() {
    let actions = [
        MenuAction::Main,
        MenuAction::Key,
        MenuAction::KeySet,
        MenuAction::KeyChange,
        MenuAction::KeyClear,
        MenuAction::Ctx,
        MenuAction::CtxAdd,
        MenuAction::CtxList,
        MenuAction::CtxClear,
        MenuAction::CtxShow(1),
        MenuAction::CtxShow(42),
        MenuAction::CtxDel(7),
        MenuAction::Gpt,
        MenuAction::Ping,
        MenuAction::Msg,
        MenuAction::Photo,
        MenuAction::Uuid,
        MenuAction::UuidN(5),
        MenuAction::UuidN(10),
        MenuAction::Profile,
        MenuAction::Help,
    ];
    for a in actions {
        let data = a.to_data();
        assert!(data.len() <= 64, "callback_data too long: {data}");
        assert_eq!(MenuAction::parse(&data), Some(a.clone()), "round-trip {a:?}");
    }
}

#[test]
fn unknown_data_is_none() {
    assert_eq!(MenuAction::parse("nonsense"), None);
    assert_eq!(MenuAction::parse("uuid:abc"), None);
    assert_eq!(MenuAction::parse("ctx:show:abc"), None);
    assert_eq!(MenuAction::parse(""), None);
}

#[test]
fn uuid_n_keeps_count() {
    assert_eq!(MenuAction::parse("uuid:7"), Some(MenuAction::UuidN(7)));
    assert_eq!(MenuAction::UuidN(7).to_data(), "uuid:7");
}

#[test]
fn ctx_show_and_del_keep_seq() {
    assert_eq!(MenuAction::parse("ctx:show:3"), Some(MenuAction::CtxShow(3)));
    assert_eq!(MenuAction::CtxShow(3).to_data(), "ctx:show:3");
    assert_eq!(MenuAction::parse("ctx:del:9"), Some(MenuAction::CtxDel(9)));
    assert_eq!(MenuAction::CtxDel(9).to_data(), "ctx:del:9");
}

#[test]
fn extreme_numbers_round_trip() {
    for a in [
        MenuAction::CtxShow(i64::MIN),
        MenuAction::CtxShow(i64::MAX),
        MenuAction::CtxDel(-1),
        MenuAction::CtxDel(0),
        MenuAction::UuidN(0),
        MenuAction::UuidN(255),
    ] {
        let data = a.to_data();
        assert!(data.len() <= 64);
        assert_eq!(MenuAction::parse(&data), Some(a));
    }
    assert_eq!(MenuAction::CtxShow(i64::MIN).to_data(), "ctx:show:-9223372036854775808");
}

#[test]
fn numbers_follow_str_parse() {
    // A leading '+' and leading zeros are accepted, as by `str::parse`.
    assert_eq!(MenuAction::parse("uuid:+7"), Some(MenuAction::UuidN(7)));
    assert_eq!(MenuAction::parse("uuid:007"), Some(MenuAction::UuidN(7)));
    assert_eq!(MenuAction::parse("ctx:del:-12"), Some(MenuAction::CtxDel(-12)));
    assert_eq!(MenuAction::parse("ctx:show:+5"), Some(MenuAction::CtxShow(5)));
    // Out of range, signs alone, signs on unsigned numbers, empty numbers.
    assert_eq!(MenuAction::parse("uuid:256"), None);
    assert_eq!(MenuAction::parse("uuid:-1"), None);
    assert_eq!(MenuAction::parse("uuid:"), None);
    assert_eq!(MenuAction::parse("uuid:+"), None);
    assert_eq!(MenuAction::parse("ctx:show:-"), None);
    assert_eq!(MenuAction::parse("ctx:show:9223372036854775808"), None);
    assert_eq!(
        MenuAction::parse("ctx:show:-9223372036854775808"),
        Some(MenuAction::CtxShow(i64::MIN))
    );
    assert_eq!(MenuAction::parse("ctx:del:1 "), None);
    assert_eq!(MenuAction::parse("MAIN"), None);
    assert_eq!(MenuAction::parse("main "), None);
    for n in [0u8, 7, 99, 100, 255] {
        assert_eq!(
            MenuAction::parse(&format!("uuid:{n}")),
            format!("{n}").parse::<u8>().ok().map(MenuAction::UuidN)
        );
    }
}
