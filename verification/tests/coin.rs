use terra_sdk::{Coin, CoinMacroAmount, CoinMacroExprInput, Coins, Error, MsgSend, Uint128};
use terra_sdk::AccAddress;

#[test]
fn lib_it_works() {
    let coin1 = Coin::new("uusd", CoinMacroAmount::parse_uint(&1));
    let coin2 = Coin::new("uusd", CoinMacroAmount::parse_uint(&2));
    let coin3 = CoinMacroExprInput::to_coin(&"3uusd");
    println!("{} {} {}", coin1.to_string(), coin2.to_string(), coin3.to_string());
    assert_eq!(coin1.to_string(), "1uusd");
    assert_eq!(coin2.to_string(), "2uusd");
    assert_eq!(coin3.to_string(), "3uusd");
}

#[test]
fn mod_macro_works() {
    let a = Coin::new("uluna", CoinMacroAmount::parse_uint(&1));
    let b = Coin::new("uluna", Uint128::from(1u128));
    assert_eq!(a, b);
}

#[test]
fn coin_macro_works() {
    let a = Coin::new("uluna", CoinMacroAmount::parse_uint(&1));
    let b = Coin::new("uluna", Uint128::from(1u128));
    assert_eq!(a, b);
    assert_eq!(CoinMacroExprInput::to_coin(&"1uluna"), b);
}

#[test]
fn coin_parses_amount_and_denom() {
    let c = Coin::parse("1000000uluna").unwrap();
    assert_eq!(c.denom, "uluna");
    assert_eq!(c.amount, Uint128::new(1000000));
    assert_eq!(c, Coin::new("uluna", Uint128::new(1000000)));
    assert_eq!(Coin::parse("007ABCxyz"), Ok(Coin::new("ABCxyz", Uint128::new(7))));
}

#[test]
fn coin_parse_rejects_malformed_text() {
    for text in [
        "", "uluna", "100", "100 uluna", " 100uluna", "100uluna ", "100uluna\n", "1.5uluna",
        "-1uluna", "100u1una", "100uluna,", "100ulun\u{e9}", "\u{661}uluna",
        "340282366920938463463374607431768211456uluna",
    ] {
        assert_eq!(Coin::parse(text), Err(Error::Parse), "{:?}", text);
    }
    assert_eq!(
        Coin::parse("340282366920938463463374607431768211455uluna"),
        Ok(Coin::new("uluna", Uint128::new(u128::MAX)))
    );
}

#[test]
fn coin_text_round_trip() {
    let c = Coin::new("uusd", Uint128::new(2_000_000));
    assert_eq!(c.to_string(), "2000000uusd");
    assert_eq!(Coin::parse(&c.to_string()), Ok(c));
}

#[test]
fn coin_addition_needs_equal_denoms() {
    let five = Coin::parse("5uluna").unwrap();
    let three = Coin::parse("3uluna").unwrap();
    let usd = Coin::parse("3uusd").unwrap();
    assert_eq!(five.clone().add(&three), Ok(Coin::parse("8uluna").unwrap()));
    assert_eq!(five.clone().add(&usd), Err(Error::DenomMismatch));
    assert_eq!(five.clone().sub(&three), Ok(Coin::parse("2uluna").unwrap()));
    assert_eq!(five.clone().sub(&usd), Err(Error::DenomMismatch));
    assert_eq!(three.clone().sub(&five), Err(Error::Underflow));
    let top = Coin::new("uluna", Uint128::new(u128::MAX));
    assert_eq!(top.clone().add(&three), Err(Error::Overflow));
    assert_eq!(
        Coin::new("uusd", Uint128::new(u128::MAX)).add(&three),
        Err(Error::DenomMismatch)
    );
}

#[test]
fn coin_and_bare_amount() {
    let five = Coin::parse("5uluna").unwrap();
    let two = Uint128::new(2);
    assert_eq!(five.clone().add_amount(two), Ok(Coin::parse("7uluna").unwrap()));
    assert_eq!(five.clone().sub_amount(two), Ok(Coin::parse("3uluna").unwrap()));
    assert_eq!(five.clone().mul(two), Ok(Coin::parse("10uluna").unwrap()));
    assert_eq!(five.clone().div(two), Ok(Coin::parse("2uluna").unwrap()));
    assert_eq!(five.clone().rem(two), Ok(Coin::parse("1uluna").unwrap()));
    assert_eq!(five.clone().sub_amount(Uint128::new(6)), Err(Error::Underflow));
    assert_eq!(five.clone().add_amount(Uint128::new(u128::MAX)), Err(Error::Overflow));
    assert_eq!(five.clone().mul(Uint128::new(u128::MAX)), Err(Error::Overflow));
    assert_eq!(five.clone().div(Uint128::new(0)), Err(Error::DivideByZero));
    assert_eq!(five.clone().rem(Uint128::new(0)), Err(Error::DivideByZero));
}

#[test]
fn coin_assign_in_place() {
    let mut c = Coin::parse("5uluna").unwrap();
    assert_eq!(c.add_assign(&Coin::parse("3uluna").unwrap()), Ok(()));
    assert_eq!(c, Coin::parse("8uluna").unwrap());
    assert_eq!(c.sub_assign(&Coin::parse("1uluna").unwrap()), Ok(()));
    assert_eq!(c, Coin::parse("7uluna").unwrap());
    assert_eq!(c.add_assign(&Coin::parse("3uusd").unwrap()), Err(Error::DenomMismatch));
    assert_eq!(c.sub_assign(&Coin::parse("9uluna").unwrap()), Err(Error::Underflow));
    assert_eq!(c, Coin::parse("7uluna").unwrap());
}

fn ledger(text: &str) -> Coins {
    Coins::parse(text).unwrap()
}

#[test]
fn ledger_parse_has_one_entry_for_each_denom() {
    let l = ledger("1000000uluna,2000000uusd");
    assert_eq!(l.len(), 2);
    assert!(!l.is_empty());
    assert_eq!(l.get("uluna"), Some(&Coin::new("uluna", Uint128::new(1000000))));
    assert_eq!(l.get("uusd"), Some(&Coin::new("uusd", Uint128::new(2000000))));
    assert_eq!(l.get("ukrw"), None);
    assert!(l.has_denom("uusd"));
    assert!(!l.has_denom("usd"));
}

#[test]
fn ledger_parse_last_occurrence_wins() {
    let l = ledger("1uluna,2uusd,3uluna");
    assert_eq!(l.len(), 2);
    assert_eq!(l.get("uluna").unwrap().amount, Uint128::new(3));
    assert!(l.same_as(&ledger("2uusd,3uluna")));
}

#[test]
fn ledger_parse_rejects_malformed_text() {
    for text in ["", ",", "1uluna,", ",1uluna", "1uluna,,2uusd", "1uluna, 2uusd", "1uluna;2uusd", "uluna"] {
        assert_eq!(Coins::parse(text).err(), Some(Error::Parse), "{:?}", text);
    }
}

#[test]
fn ledger_set_get_remove() {
    let mut l = Coins::new();
    assert!(l.is_empty());
    assert_eq!(l.len(), 0);
    l.set("uluna", Coin::new("uluna", Uint128::new(5)));
    l.insert_coin(Coin::new("uusd", Uint128::new(0)));
    assert_eq!(l.len(), 2);
    assert_eq!(l.get("uusd").unwrap().amount, Uint128::new(0));
    l.set("uluna", Coin::new("uluna", Uint128::new(9)));
    assert_eq!(l.len(), 2);
    assert_eq!(l.get("uluna").unwrap().amount, Uint128::new(9));
    l.remove_denom("ukrw");
    assert_eq!(l.len(), 2);
    l.remove_denom("uluna");
    assert_eq!(l.len(), 1);
    assert!(!l.has_denom("uluna"));
    assert!(l.has_denom("uusd"));
    assert_eq!(l.iter().len(), 1);
    assert_eq!(l.iter()[0], Coin::new("uusd", Uint128::new(0)));
}

#[test]
fn ledger_from_coins_keeps_the_later_coin() {
    let l = Coins::from_coins(vec![
        Coin::new("uluna", Uint128::new(1)),
        Coin::new("uusd", Uint128::new(2)),
        Coin::new("uluna", Uint128::new(3)),
    ]);
    assert!(l.same_as(&ledger("3uluna,2uusd")));
    assert!(!l.same_as(&ledger("1uluna,2uusd")));
    assert!(!l.same_as(&ledger("3uluna")));
    assert!(!l.same_as(&ledger("3uluna,2ukrw")));
}

#[test]
fn ledger_sum_adds_shared_denoms() {
    let a = ledger("5uluna");
    let b = ledger("3uluna,2uusd");
    assert!(a.add(&b).unwrap().same_as(&ledger("8uluna,2uusd")));
    assert_eq!(a.add(&b).unwrap(), ledger("2uusd,8uluna"));
    assert_ne!(a.add(&b).unwrap(), ledger("2uusd,7uluna"));
    assert!(b.add(&a).unwrap().same_as(&ledger("8uluna,2uusd")));
    assert!(a.add(&Coins::new()).unwrap().same_as(&a));
    let top = ledger("340282366920938463463374607431768211455uluna,1uusd");
    assert_eq!(top.add(&a).err(), Some(Error::Overflow));
    assert!(top.add(&ledger("1ukrw")).is_ok());
}

#[test]
fn ledger_difference_takes_over_what_only_the_subtrahend_has() {
    let a = ledger("5uluna,7ukrw");
    let b = ledger("3uluna,2uusd");
    assert!(a.sub(&b).unwrap().same_as(&ledger("2uluna,7ukrw,2uusd")));
    assert_eq!(b.sub(&a).err(), Some(Error::Underflow));
    assert!(a.sub(&a).unwrap().same_as(&ledger("0uluna,0ukrw")));
    assert_eq!(a.sub(&a).unwrap().len(), 2);
}

#[test]
fn ledger_and_single_coin() {
    let a = ledger("5uluna");
    let luna = Coin::parse("3uluna").unwrap();
    let usd = Coin::parse("2uusd").unwrap();
    assert!(a.add_coin(&luna).unwrap().same_as(&ledger("8uluna")));
    assert!(a.add_coin(&usd).unwrap().same_as(&ledger("5uluna,2uusd")));
    assert!(a.sub_coin(&luna).unwrap().same_as(&ledger("2uluna")));
    assert!(a.sub_coin(&usd).unwrap().same_as(&ledger("5uluna,2uusd")));
    assert_eq!(a.sub_coin(&Coin::parse("6uluna").unwrap()).err(), Some(Error::Underflow));
    assert_eq!(
        a.add_coin(&Coin::new("uluna", Uint128::new(u128::MAX))).err(),
        Some(Error::Overflow)
    );
}

#[test]
fn ledger_scalar_operations_apply_to_every_entry() {
    let a = ledger("5uluna,7uusd");
    let two = Uint128::new(2);
    assert!(a.mul(two).unwrap().same_as(&ledger("10uluna,14uusd")));
    assert!(a.div(two).unwrap().same_as(&ledger("2uluna,3uusd")));
    assert!(a.rem(two).unwrap().same_as(&ledger("1uluna,1uusd")));
    assert_eq!(a.div(Uint128::new(0)).err(), Some(Error::DivideByZero));
    assert_eq!(a.rem(Uint128::new(0)).err(), Some(Error::DivideByZero));
    assert_eq!(a.mul(Uint128::new(u128::MAX)).err(), Some(Error::Overflow));
    assert!(Coins::new().div(Uint128::new(0)).unwrap().is_empty());
    assert!(a.mul(Uint128::new(0)).unwrap().same_as(&ledger("0uluna,0uusd")));
}

#[test]
fn coin_scalar_assign_in_place() {
    let mut c = Coin::parse("5uluna").unwrap();
    assert_eq!(c.add_amount_assign(Uint128::new(2)), Ok(()));
    assert_eq!(c.to_string(), "7uluna");
    assert_eq!(c.sub_amount_assign(Uint128::new(1)), Ok(()));
    assert_eq!(c.to_string(), "6uluna");
    assert_eq!(c.mul_assign(Uint128::new(3)), Ok(()));
    assert_eq!(c.to_string(), "18uluna");
    assert_eq!(c.div_assign(Uint128::new(4)), Ok(()));
    assert_eq!(c.to_string(), "4uluna");
    assert_eq!(c.rem_assign(Uint128::new(3)), Ok(()));
    assert_eq!(c.to_string(), "1uluna");
    assert_eq!(c.div_assign(Uint128::new(0)), Err(Error::DivideByZero));
    assert_eq!(c.rem_assign(Uint128::new(0)), Err(Error::DivideByZero));
    assert_eq!(c.sub_amount_assign(Uint128::new(2)), Err(Error::Underflow));
    assert_eq!(c.mul_assign(Uint128::new(u128::MAX)), Ok(()));
    assert_eq!(c.add_amount_assign(Uint128::new(1)), Err(Error::Overflow));
    assert_eq!(c.mul_assign(Uint128::new(2)), Err(Error::Overflow));
    assert_eq!(c.amount, Uint128::new(u128::MAX));
}

#[test]
fn values_read_as_coins_and_amounts() {
    assert_eq!("3uusd".to_coin(), Coin::new("uusd", Uint128::new(3)));
    assert_eq!(String::from("3uusd").to_coin(), Coin::new("uusd", Uint128::new(3)));
    assert_eq!(1u8.parse_uint(), Uint128::new(1));
    assert_eq!(1u16.parse_uint(), Uint128::new(1));
    assert_eq!(1u32.parse_uint(), Uint128::new(1));
    assert_eq!(1u64.parse_uint(), Uint128::new(1));
    assert_eq!(1usize.parse_uint(), Uint128::new(1));
    assert_eq!(u128::MAX.parse_uint(), Uint128::new(u128::MAX));
    assert_eq!(Uint128::new(9).parse_uint(), Uint128::new(9));
    assert_eq!(1i8.parse_uint(), Uint128::new(1));
    assert_eq!(1i16.parse_uint(), Uint128::new(1));
    assert_eq!(1i32.parse_uint(), Uint128::new(1));
    assert_eq!(1i64.parse_uint(), Uint128::new(1));
    assert_eq!(1isize.parse_uint(), Uint128::new(1));
    assert_eq!(i128::MAX.parse_uint(), Uint128::new(i128::MAX as u128));
}

#[test]
fn ledger_amount_changed_in_place() {
    let mut l = ledger("5uluna,7uusd");
    match l.get_mut("uluna") {
        Some(amount) => {
            assert_eq!(*amount, Uint128::new(5));
            *amount = Uint128::new(6);
        }
        None => panic!("uluna is in the ledger"),
    }
    assert!(l.get_mut("ukrw").is_none());
    assert!(l.same_as(&ledger("6uluna,7uusd")));
}

#[test]
fn ledger_filter_keeps_what_the_predicate_accepts() {
    let l = ledger("5uluna,0uusd,7ukrw");
    let positive = l.filter(|c| c.amount > Uint128::new(0));
    assert!(positive.same_as(&ledger("5uluna,7ukrw")));
    assert!(l.filter(|_| false).is_empty());
    assert!(l.filter(|_| true).same_as(&l));
    assert!(l.filter(|c| c.denom == "uusd").same_as(&ledger("0uusd")));
}

#[test]
fn ledger_assign_in_place() {
    let mut l = ledger("5uluna");
    assert_eq!(l.add_assign(&ledger("3uluna,2uusd")), Ok(()));
    assert!(l.same_as(&ledger("8uluna,2uusd")));
    assert_eq!(l.sub_assign(&ledger("1uluna,4ukrw")), Ok(()));
    assert!(l.same_as(&ledger("7uluna,2uusd,4ukrw")));
    assert_eq!(l.sub_assign(&ledger("9uluna")), Err(Error::Underflow));
    assert!(l.same_as(&ledger("7uluna,2uusd,4ukrw")));
    assert_eq!(l.mul_assign(Uint128::new(2)), Ok(()));
    assert!(l.same_as(&ledger("14uluna,4uusd,8ukrw")));
    assert_eq!(l.div_assign(Uint128::new(4)), Ok(()));
    assert!(l.same_as(&ledger("3uluna,1uusd,2ukrw")));
    assert_eq!(l.rem_assign(Uint128::new(2)), Ok(()));
    assert!(l.same_as(&ledger("1uluna,1uusd,0ukrw")));
    assert_eq!(l.div_assign(Uint128::new(0)), Err(Error::DivideByZero));
    assert_eq!(l.rem_assign(Uint128::new(0)), Err(Error::DivideByZero));
    assert_eq!(l.mul_assign(Uint128::new(u128::MAX)), Ok(()));
    assert_eq!(l.mul_assign(Uint128::new(2)), Err(Error::Overflow));
    assert_eq!(l.add_assign(&ledger("1uusd")), Err(Error::Overflow));
    assert_eq!(l.get("uusd").unwrap().amount, Uint128::new(u128::MAX));
}

#[test]
fn ledger_copies_and_lists() {
    let l = ledger("5uluna,7uusd");
    let copy = l.clone();
    assert!(copy.same_as(&l));
    assert!(Coins::default().is_empty());
    assert!(Coins::from_text("5uluna,7uusd").same_as(&l));
    assert!(Coins::from_text("5uluna,").is_empty());
    assert!(Coins::from_str("7uusd,5uluna").unwrap().same_as(&l));
    let mut denoms: Vec<String> = l.iter().iter().map(|c| c.denom.clone()).collect();
    denoms.sort();
    assert_eq!(denoms, vec!["uluna".to_string(), "uusd".to_string()]);
    let mut coins = l.into_iter();
    coins.sort();
    assert_eq!(coins, vec![Coin::parse("5uluna").unwrap(), Coin::parse("7uusd").unwrap()]);
}

#[test]
fn send_message_holds_its_parts() {
    let from = AccAddress::unchecked("terra1y4umfuqfg76t8mfcff6zzx7elvy93jtp4xcdvw");
    let to = AccAddress::unchecked("terra1v9ku44wycfnsucez6fp085f5fsksp47u9x8jr4");
    let msg = MsgSend::new(from.clone(), to.clone(), Coins::from_text("1000000uluna,2000000uusd"));
    assert_eq!(msg.from_address, from);
    assert_eq!(msg.to_address, to);
    assert_eq!(msg.amount.get("uluna").unwrap().amount, Uint128::new(1000000));
    assert_eq!(msg.amount.get("uusd").unwrap().amount, Uint128::new(2000000));
    assert_eq!(msg.amount.len(), 2);
}
