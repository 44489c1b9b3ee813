//! Positional arguments and their defaults.

use bitcoincore_rpc::args::{handle_defaults, into_json, null, opt_into_json};
use bitcoincore_rpc::chain::BlockHash;
use bitcoincore_rpc::json::{Json, JsonNumber};

fn num(n: u64) -> Json {
    into_json(n)
}

#[test]
fn test_handle_defaults() {
    {
        let mut args = [num(0), null(), null()];
        let defaults = [num(1), num(2)];
        let res = [num(0)];
        assert_eq!(handle_defaults(&mut args, &defaults), &res);
    }
    {
        let mut args = [num(0), num(1), null()];
        let defaults = [num(2)];
        let res = [num(0), num(1)];
        assert_eq!(handle_defaults(&mut args, &defaults), &res);
    }
    {
        let mut args = [num(0), null(), num(5)];
        let defaults = [num(2), num(3)];
        let res = [num(0), num(2), num(5)];
        assert_eq!(handle_defaults(&mut args, &defaults), &res);
    }
    {
        let mut args = [num(0), null(), num(5), null()];
        let defaults = [num(2), num(3), num(4)];
        let res = [num(0), num(2), num(5)];
        assert_eq!(handle_defaults(&mut args, &defaults), &res);
    }
    {
        let mut args = [null(), null()];
        let defaults = [num(2), num(3)];
        let res: [Json; 0] = [];
        assert_eq!(handle_defaults(&mut args, &defaults), &res);
    }
    {
        let mut args = [null(), num(1)];
        let defaults = [];
        let res = [null(), num(1)];
        assert_eq!(handle_defaults(&mut args, &defaults), &res);
    }
    {
        let mut args = [];
        let defaults = [];
        let res: [Json; 0] = [];
        assert_eq!(handle_defaults(&mut args, &defaults), &res);
    }
    {
        let mut args = [num(0)];
        let defaults = [num(2)];
        let res = [num(0)];
        assert_eq!(handle_defaults(&mut args, &defaults), &res);
    }
}

#[test]
fn a_required_null_stays() {
    let mut args = [null(), null(), num(7)];
    let defaults = [num(3)];
    assert_eq!(handle_defaults(&mut args, &defaults), &[null(), null(), num(7)]);
}

#[test]
fn a_null_default_is_fine_where_nothing_needs_it() {
    let mut args = [num(1), null()];
    assert_eq!(handle_defaults(&mut args, &[null()]), &[num(1)]);
    let mut args = [num(1), num(2)];
    assert_eq!(handle_defaults(&mut args, &[null()]), &[num(1), num(2)]);
}

#[test]
fn the_list_itself_holds_the_defaults_and_the_dropped_nulls() {
    let mut args = [num(0), null(), num(5), null()];
    handle_defaults(&mut args, &[num(2), num(3), num(4)]);
    assert_eq!(args, [num(0), num(2), num(5), null()]);
}

#[test]
fn filling_twice_changes_nothing() {
    let mut args = [num(0), null(), num(5), null()];
    let mut passed = handle_defaults(&mut args, &[num(2), num(3), num(4)]).to_vec();
    let again = handle_defaults(&mut passed, &[num(2), num(3)]);
    assert_eq!(again, &[num(0), num(2), num(5)]);
}

#[test]
fn arguments_as_json() {
    assert_eq!(into_json(true), Json::Bool(true));
    assert_eq!(into_json(7u64), Json::Number(JsonNumber::PosInt(7)));
    assert_eq!(null(), Json::Null);
    assert_eq!(opt_into_json(Some(false)), Json::Bool(false));
    assert_eq!(opt_into_json(None::<&BlockHash>), Json::Null);
    let mut bytes = [0u8; 32];
    bytes[31] = 0xab;
    bytes[0] = 0x01;
    let text = format!("ab{}01", "00".repeat(30));
    assert_eq!(opt_into_json(Some(&BlockHash { bytes })), Json::String(text));
}

#[test]
fn refilling_the_list_changes_nothing() {
    let mut args = [num(0), null(), num(5), null()];
    let defaults = [num(2), num(3), num(4)];
    let first = handle_defaults(&mut args, &defaults).to_vec();
    let left = args.clone();
    assert_eq!(left, [num(0), num(2), num(5), null()]);
    assert_eq!(handle_defaults(&mut args, &defaults), &first[..]);
    assert_eq!(args, left);
}
