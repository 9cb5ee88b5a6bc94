use terra_sdk::codec::{payload_fits, try_convert, validate_as};
use terra_sdk::{
    AccAddress, AccPubKey, Error, Payload, Role, ValAddress, ValConsAddress, ValConsPubKey,
    ValPubKey,
};

const ACC: &str = "terra1pdx498r0hrc2fj36sjhs8vuhrz9hd2cw0tmam9";
const VAL: &str = "terravaloper1pdx498r0hrc2fj36sjhs8vuhrz9hd2cw0yhqtk";
const VALCONS: &str = "terravalcons1relcztayk87c3r529rqf3fwdmn8hr6rhcgyrxd";

#[test]
fn strings_it_validates_acc_address() {
    let a = AccAddress::validate("terravaloper1pdx498r0hrc2fj36sjhs8vuhrz9hd2cw0yhqtk");
    assert_eq!(a, false);

    let b = AccAddress::validate("terra1pdx498r0h7c2fj36sjhs8vu8rz9hd2cw0tmam9");
    assert_eq!(b, false);

    let c = AccAddress::validate("cosmos176m2p8l3fps3dal7h8gf9jvrv98tu3rqfdht86");
    assert_eq!(c, false);

    let d = AccAddress::validate("terra1pdx498r0hrc2fj36sjhs8vuhrz9hd2cw0tmam9");
    assert_eq!(d, true);

    let e = AccAddress::new("terra1pdx498r0hrc2fj36sjhs8vuhrz9hd2cw0tmam9").is_ok();
    assert_eq!(e, true);
}

#[test]
fn address_it_validates_acc_address() {
    let a = AccAddress::validate("terravaloper1pdx498r0hrc2fj36sjhs8vuhrz9hd2cw0yhqtk");
    assert_eq!(a, false);

    let b = AccAddress::validate("terra1pdx498r0h7c2fj36sjhs8vu8rz9hd2cw0tmam9");
    assert_eq!(b, false);

    let c = AccAddress::validate("cosmos176m2p8l3fps3dal7h8gf9jvrv98tu3rqfdht86");
    assert_eq!(c, false);

    let d = AccAddress::validate("terra1pdx498r0hrc2fj36sjhs8vuhrz9hd2cw0tmam9");
    assert_eq!(d, true);

    let e = AccAddress::new("terra1pdx498r0hrc2fj36sjhs8vuhrz9hd2cw0tmam9").is_ok();
    assert_eq!(e, true);
}

#[test]
fn strings_it_validates_val_address() {
    let a = ValAddress::validate("terravaloper1pdx498r0hrc2fj36sjhs8vuhrz9hd2cw0yhqtk");
    assert_eq!(a, true);

    let b = ValAddress::new("terravaloper1pdx498r0hrc2fj36sjhs8vuhrz9hd2cw0yhqtk").is_ok();
    assert_eq!(b, true);
}

#[test]
fn address_it_validates_val_address() {
    let a = ValAddress::validate("terravaloper1pdx498r0hrc2fj36sjhs8vuhrz9hd2cw0yhqtk");
    assert_eq!(a, true);

    let b = ValAddress::new("terravaloper1pdx498r0hrc2fj36sjhs8vuhrz9hd2cw0yhqtk").is_ok();
    assert_eq!(b, true);
}

#[test]
fn strings_it_converts_from_acc_address() {
    let a = AccAddress::new("terra1pdx498r0hrc2fj36sjhs8vuhrz9hd2cw0tmam9").unwrap();
    let b = a.clone().to_val_address();
    assert_eq!(b.0, "terravaloper1pdx498r0hrc2fj36sjhs8vuhrz9hd2cw0yhqtk");

    let c = a.clone().try_to_val_address().unwrap();
    assert_eq!(c.0, "terravaloper1pdx498r0hrc2fj36sjhs8vuhrz9hd2cw0yhqtk");
}

#[test]
fn address_it_converts_from_acc_address() {
    let a = AccAddress::new("terra1pdx498r0hrc2fj36sjhs8vuhrz9hd2cw0tmam9").unwrap();
    let b = a.clone().to_val_address();
    assert_eq!(b.0, "terravaloper1pdx498r0hrc2fj36sjhs8vuhrz9hd2cw0yhqtk");

    let c = a.clone().try_to_val_address().unwrap();
    assert_eq!(c.0, "terravaloper1pdx498r0hrc2fj36sjhs8vuhrz9hd2cw0yhqtk");
}

#[test]
fn strings_it_converts_from_val_address() {
    let a = ValAddress::new("terravaloper1pdx498r0hrc2fj36sjhs8vuhrz9hd2cw0yhqtk").unwrap();
    let b = a.clone().to_acc_address();
    assert_eq!(b.0, "terra1pdx498r0hrc2fj36sjhs8vuhrz9hd2cw0tmam9");

    let c = a.clone().try_to_acc_address().unwrap();
    assert_eq!(c.0, "terra1pdx498r0hrc2fj36sjhs8vuhrz9hd2cw0tmam9");
}

#[test]
fn address_it_converts_from_val_address() {
    let a = ValAddress::new("terravaloper1pdx498r0hrc2fj36sjhs8vuhrz9hd2cw0yhqtk").unwrap();
    let b = a.clone().to_acc_address();
    assert_eq!(b.0, "terra1pdx498r0hrc2fj36sjhs8vuhrz9hd2cw0tmam9");

    let c = a.clone().try_to_acc_address().unwrap();
    assert_eq!(c.0, "terra1pdx498r0hrc2fj36sjhs8vuhrz9hd2cw0tmam9");
}

#[test]
fn strings_it_validates_val_cons_address() {
    let a = ValConsAddress::validate("terravalcons1relcztayk87c3r529rqf3fwdmn8hr6rhcgyrxd");
    assert_eq!(a, true);
}

#[test]
fn address_it_validates_val_cons_address() {
    let a = ValConsAddress::validate("terravalcons1relcztayk87c3r529rqf3fwdmn8hr6rhcgyrxd");
    assert_eq!(a, true);
}

#[test]
fn it_validates_acc_pubkey() {
    let a = AccPubKey::validate(
        "terravaloperpub1addwnpepqt8ha594svjn3nvfk4ggfn5n8xd3sm3cz6ztxyugwcuqzsuuhhfq5y7accr",
    );
    assert_eq!(a, false);

    let b = AccPubKey::validate("terrapub1x46rqay4d3cssq8gxxvqz8xt6nwlz4tdh39t77");
    assert_eq!(b, true);

    let c = AccPubKey::new("terrapub1x46rqay4d3cssq8gxxvqz8xt6nwlz4tdh39t77").is_ok();
    assert_eq!(c, true);
}

#[test]
fn it_validates_val_pubkey() {
    let a = ValPubKey::validate("terravaloper12g4nkvsjjnl0t7fvq3hdcw7y8dc9fq69nyeu9q");
    assert_eq!(a, false);

    let b = ValPubKey::validate("terravaloperpub12g4nkvsjjnl0t7fvq3hdcw7y8dc9fq69gvd5ag");
    assert_eq!(b, true);

    let c = ValPubKey::new("terravaloperpub12g4nkvsjjnl0t7fvq3hdcw7y8dc9fq69gvd5ag").is_ok();
    assert_eq!(c, true);
}

#[test]
fn valcons_pubkey_rejects_the_address_prefix() {
    assert_eq!(ValConsPubKey::validate(VALCONS), false);
    assert_eq!(
        ValConsPubKey::new(VALCONS),
        Err(Error::InvalidPublicKey(Role::ValConsPubKey, VALCONS.to_string()))
    );
    let key = ValConsAddress::new(VALCONS).unwrap().to_val_cons_pubkey();
    assert!(key.as_str().starts_with("terravalconspub1"));
    assert_eq!(ValConsPubKey::validate(key.as_str()), true);
    assert!(key.is_valid());
}

#[test]
fn new_reports_the_offending_string() {
    assert_eq!(
        AccAddress::new(VAL),
        Err(Error::InvalidAddress(Role::AccAddress, VAL.to_string()))
    );
    assert_eq!(
        ValAddress::new("nonsense"),
        Err(Error::InvalidAddress(Role::ValAddress, "nonsense".to_string()))
    );
    assert_eq!(
        ValConsAddress::from_str(ACC),
        Err(Error::InvalidAddress(Role::ValConsAddress, ACC.to_string()))
    );
    assert_eq!(
        AccPubKey::new(ACC),
        Err(Error::InvalidPublicKey(Role::AccPubKey, ACC.to_string()))
    );
    assert_eq!(
        ValPubKey::from_str(""),
        Err(Error::InvalidPublicKey(Role::ValPubKey, String::new()))
    );
}

#[test]
fn unchecked_wraps_anything() {
    let a = AccAddress::unchecked("nonsense");
    assert_eq!(a.as_str(), "nonsense");
    assert_eq!(a.is_valid(), false);
    assert_eq!(a.clone().try_to_val_address(), None);
    assert_eq!(a.to_string(), "nonsense");
    assert_eq!(a.into_string(), "nonsense");
    assert!(AccAddress::unchecked(ACC).is_valid());
    assert!(!ValAddress::unchecked(ACC).is_valid());
}

#[test]
fn round_trip_through_the_validator_address() {
    let a = AccAddress::new(ACC).unwrap();
    let back = a.clone().to_val_address().to_acc_address();
    assert_eq!(back.0, ACC);
    assert_eq!(back, a);
    let v = ValAddress::new(VAL).unwrap();
    assert_eq!(v.clone().to_acc_address().to_val_address(), v);
}

#[test]
fn round_trip_does_not_keep_upper_case() {
    let upper = ACC.to_uppercase();
    let a = AccAddress::new(&upper).unwrap();
    assert_eq!(a.to_val_address().to_acc_address().0, ACC);
}

#[test]
fn conversions_between_roles() {
    let acc = AccAddress::new(ACC).unwrap();
    let val = ValAddress::new(VAL).unwrap();
    let acc_key = acc.clone().to_acc_pubkey();
    assert!(acc_key.as_str().starts_with("terrapub1"));
    assert!(acc_key.is_valid());
    let val_key = val.clone().to_val_pubkey();
    assert!(val_key.as_str().starts_with("terravaloperpub1"));
    assert!(val_key.is_valid());
    assert_eq!(acc_key.clone().to_val_pubkey(), val_key);
    assert_eq!(val_key.clone().to_acc_pubkey(), acc_key);
    assert_eq!(acc_key.clone().try_to_val_pubkey(), Some(val_key.clone()));
    assert_eq!(val_key.try_to_acc_pubkey(), Some(acc_key));
    let cons = ValConsAddress::new(VALCONS).unwrap();
    let cons_key = cons.clone().to_val_cons_pubkey();
    assert_eq!(cons_key.clone().to_val_cons_address(), cons);
    assert_eq!(cons_key.try_to_val_cons_address(), Some(cons.clone()));
    assert_eq!(cons.clone().try_to_val_cons_pubkey().map(|k| k.is_valid()), Some(true));
    assert_eq!(acc.try_to_acc_pubkey().map(|k| k.is_valid()), Some(true));
    assert_eq!(val.clone().try_to_val_pubkey().map(|k| k.is_valid()), Some(true));
    let acc_key = AccPubKey::new("terrapub1x46rqay4d3cssq8gxxvqz8xt6nwlz4tdh39t77").unwrap();
    let as_address = acc_key.clone().to_acc_address();
    assert!(as_address.as_str().starts_with("terra1x46rqay4d3cssq8gxxvqz8xt6nwlz4td"));
    assert_eq!(acc_key.clone().try_to_acc_address(), Some(as_address));
    let val_key = ValPubKey::new("terravaloperpub12g4nkvsjjnl0t7fvq3hdcw7y8dc9fq69gvd5ag").unwrap();
    assert_eq!(
        val_key.clone().to_val_address().0,
        "terravaloper12g4nkvsjjnl0t7fvq3hdcw7y8dc9fq69nyeu9q"
    );
    assert_eq!(val_key.try_to_val_address().map(|v| v.is_valid()), Some(true));
    assert_eq!(ValPubKey::unchecked("x").try_to_val_address(), None);
}

#[test]
fn payload_rules_for_each_role() {
    let payload = |hrp: &str, len: usize| {
        Some(Payload { hrp: hrp.to_string(), data: vec![0u8; len], bech32m: false })
    };
    assert!(payload_fits(Role::AccAddress, &payload("terra", 32)));
    assert!(!payload_fits(Role::AccAddress, &payload("terra", 31)));
    assert!(!payload_fits(Role::AccAddress, &payload("terra", 33)));
    assert!(!payload_fits(Role::AccAddress, &payload("terravaloper", 32)));
    assert!(payload_fits(Role::ValAddress, &payload("terravaloper", 32)));
    assert!(payload_fits(Role::ValConsAddress, &payload("terravalcons", 32)));
    assert!(!payload_fits(Role::ValConsAddress, &payload("terravalcons", 0)));
    assert!(payload_fits(Role::AccPubKey, &payload("terrapub", 5)));
    assert!(payload_fits(Role::ValPubKey, &payload("terravaloperpub", 70)));
    assert!(payload_fits(Role::ValConsPubKey, &payload("terravalconspub", 0)));
    assert!(!payload_fits(Role::ValConsPubKey, &payload("terravalcons", 32)));
    assert!(!payload_fits(Role::AccPubKey, &None));
    assert_eq!(Role::ValPubKey.prefix(), "terravaloperpub");
    assert!(Role::ValConsAddress.is_address());
    assert!(!Role::AccPubKey.is_address());
}

#[test]
fn codec_functions_by_role() {
    assert!(validate_as(Role::AccAddress, ACC));
    assert!(!validate_as(Role::ValAddress, ACC));
    assert_eq!(try_convert(ACC, Role::AccAddress, Role::ValAddress), Some(VAL.to_string()));
    assert_eq!(try_convert(ACC, Role::ValAddress, Role::AccAddress), None);
    assert_eq!(try_convert("terra1", Role::AccAddress, Role::ValAddress), None);
}

#[test]
fn errors_describe_themselves() {
    assert_eq!(
        AccAddress::new("abc").unwrap_err().message(),
        "Invalid account address: abc"
    );
    assert_eq!(
        ValAddress::new("abc").unwrap_err().message(),
        "Invalid validator address: abc"
    );
    assert_eq!(
        ValConsAddress::new("abc").unwrap_err().message(),
        "Invalid validator consensus address: abc"
    );
    assert_eq!(
        AccPubKey::new("abc").unwrap_err().message(),
        "Invalid account public key: abc"
    );
    assert_eq!(
        ValPubKey::new("abc").unwrap_err().message(),
        "Invalid validator public key: abc"
    );
    assert_eq!(
        ValConsPubKey::new("abc").unwrap_err().message(),
        "Invalid validator consensus public key: abc"
    );
    assert_eq!(Error::Parse.message(), "invalid text");
    assert_eq!(Error::Overflow.message(), "overflow");
    assert_eq!(Error::Underflow.message(), "underflow");
    assert_eq!(Error::DivideByZero.message(), "division by zero");
    assert_eq!(Error::DenomMismatch.message(), "cannot combine coins with different denoms");
    assert_eq!(Role::AccPubKey.description(), "account public key");
}
