use etwin::dinoparc::{DinoparcServer, DinoparcUserId, DinoparcUsername};
use etwin::dinoparc_client::derive_machine_id;
use etwin::popotamo::{
    PopotamoPassword, PopotamoServer, PopotamoUserId, PopotamoUserItem, PopotamoUserLeaderboard,
    PopotamoUserSkill, PopotamoUsername, ShortPopotamoUser,
};
use etwin::twinoid::{TwinoidUserDisplayName, TwinoidUserId};

#[test]
fn test_dinoparc_server_names() {
    assert_eq!(DinoparcServer::DinoparcCom.as_str(), "dinoparc.com");
    assert_eq!(DinoparcServer::EnDinoparcCom.as_str(), "en.dinoparc.com");
    assert_eq!(DinoparcServer::SpDinoparcCom.as_str(), "sp.dinoparc.com");
    for s in DinoparcServer::iter() {
        assert_eq!(s.as_str().parse::<DinoparcServer>(), Ok(s));
    }
    assert_eq!(
        DinoparcServer::iter(),
        vec![
            DinoparcServer::DinoparcCom,
            DinoparcServer::EnDinoparcCom,
            DinoparcServer::SpDinoparcCom
        ]
    );
    assert!(DinoparcServer::parse("www.dinoparc.com").is_err());
    assert!(DinoparcServer::parse("").is_err());
    assert_eq!(DinoparcServer::parse("x").unwrap_err().message(), "DinoparcServerParseError");
}

#[test]
fn test_dinoparc_user_id_bounds() {
    assert!(DinoparcUserId::new(0).is_err());
    assert_eq!(DinoparcUserId::new(1).unwrap().get(), 1);
    assert_eq!(DinoparcUserId::new(999_999_999).unwrap().get(), 999_999_999);
    assert!(DinoparcUserId::new(1_000_000_000).is_err());
}

#[test]
fn test_dinoparc_username() {
    assert_eq!(DinoparcUsername::try_from_string("demurgos".into()).unwrap().as_str(), "demurgos");
    assert!(DinoparcUsername::try_from_string("abc-DEF-123".into()).is_ok());
    assert!(DinoparcUsername::try_from_string("".into()).is_err());
    assert!(DinoparcUsername::try_from_string("with space".into()).is_err());
    assert!(DinoparcUsername::try_from_string("abcdefghijklmno".into()).is_err());
}

#[test]
fn test_derive_machine_id() {
    let user = DinoparcUsername::try_from_string("demurgos".into()).unwrap();
    assert_eq!(derive_machine_id(&user).as_str(), "VyYEFXEg3inhLoe2VyYEFXEg3inhLoe2");
    let user = DinoparcUsername::try_from_string("alice".into()).unwrap();
    assert_eq!(derive_machine_id(&user).as_str(), "B8ESodhXiiTcHGoYB8ESodhXiiTcHGoY");
}

#[test]
fn test_twinoid_user_id() {
    assert_eq!(TwinoidUserId::try_from_string("38".into()).unwrap().as_str(), "38");
    assert!(TwinoidUserId::try_from_string("123456789".into()).is_ok());
    assert!(TwinoidUserId::try_from_string("1234567890".into()).is_err());
    assert!(TwinoidUserId::try_from_string("0".into()).is_err());
    assert!(TwinoidUserId::try_from_string("012".into()).is_err());
    assert!(TwinoidUserId::try_from_string("".into()).is_err());
    assert!(TwinoidUserId::try_from_string("1a".into()).is_err());
}

#[test]
fn test_twinoid_display_name() {
    assert_eq!(
        TwinoidUserDisplayName::try_from_string("Demurgos".into()).unwrap().as_str(),
        "Demurgos"
    );
    assert!(TwinoidUserDisplayName::try_from_string("".into()).is_err());
    assert!(TwinoidUserDisplayName::try_from_string("a".repeat(100)).is_ok());
    assert!(TwinoidUserDisplayName::try_from_string("a".repeat(101)).is_err());
    assert!(TwinoidUserDisplayName::try_from_string("a\nb".into()).is_err());
}

#[test]
fn test_popotamo() {
    let user = ShortPopotamoUser {
        server: PopotamoServer::PopotamoCom,
        id: PopotamoUserId::new(42).unwrap(),
        username: PopotamoUsername::try_from_string("jean_p".into()).unwrap(),
    };
    let r = user.as_ref();
    assert_eq!(r.server, PopotamoServer::PopotamoCom);
    assert_eq!(r.id.get(), 42);
    let password = PopotamoPassword::new("hunter2".to_string());
    assert_eq!(password.as_str(), "hunter2");
    assert!(PopotamoUserSkill::new(10).is_ok());
    assert!(PopotamoUserSkill::new(11).is_err());
    assert!(PopotamoUserLeaderboard::new(0).is_err());
    assert!(PopotamoUserLeaderboard::new(4).is_ok());
    assert!(PopotamoUserItem::try_from_string("poubelle".into()).is_ok());
    assert!(PopotamoUserItem::try_from_string("épée".into()).is_ok());
    assert!(PopotamoUserItem::try_from_string("a-b".into()).is_err());
    assert!(PopotamoUsername::try_from_string("thirteen_char".into()).is_err());
}
