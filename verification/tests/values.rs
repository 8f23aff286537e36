use storyflow::path::{Path, PathComponent};
use storyflow::value::{InkList, InkListItem, Value, VariablePointerValue};

#[test]
fn bool_round_trip() {
    let v = Value::from_bool(true);
    assert_eq!(v.as_bool(), Ok(true));
    assert!(v.as_int().is_err());
    assert!(v.as_float_bits().is_err());
    assert!(v.as_string().is_err());
    assert!(v.as_divert_target().is_err());
    assert!(v.as_variable_pointer().is_err());
    assert!(v.as_list().is_err());
}

#[test]
fn int_round_trip() {
    let v = Value::from_int(-42);
    assert_eq!(v.as_int(), Ok(-42));
    assert!(v.as_bool().is_err());
    assert!(v.as_float_bits().is_err());
}

#[test]
fn float_bits_round_trip() {
    let bits = 0x4048_F5C3u32; // some fixed pattern
    let v = Value::from_float_bits(bits);
    assert_eq!(v.as_float_bits(), Ok(bits));
    assert!(v.as_int().is_err());
    // the bit pattern survives exactly, so the number does too
    assert_eq!(f32::from_bits(v.as_float_bits().unwrap()), f32::from_bits(bits));
}

#[test]
fn string_round_trip() {
    let v = Value::from_text("What a day.");
    assert_eq!(v.as_string().unwrap().text, "What a day.");
    assert!(v.as_bool().is_err());
    assert!(v.as_list().is_err());
}

#[test]
fn divert_target_round_trip() {
    let p = Path::with_components(vec![
        PathComponent::Name("knot".to_string()),
        PathComponent::Index(2),
    ]);
    let v = Value::from_divert_target(p);
    let got = v.as_divert_target().unwrap();
    assert_eq!(got.components.len(), 2);
    match &got.components[0] {
        PathComponent::Name(n) => assert_eq!(n, "knot"),
        PathComponent::Index(_) => panic!("expected a name component"),
    }
    match &got.components[1] {
        PathComponent::Index(i) => assert_eq!(*i, 2),
        PathComponent::Name(_) => panic!("expected an index component"),
    }
    assert!(v.as_string().is_err());
}

#[test]
fn variable_pointer_round_trip() {
    let v = Value::from_variable_pointer(VariablePointerValue {
        name: "x".to_string(),
        context_index: -1,
    });
    let got = v.as_variable_pointer().unwrap();
    assert_eq!(got.name, "x");
    assert_eq!(got.context_index, -1);
    assert!(v.as_int().is_err());
}

#[test]
fn list_round_trip() {
    let l = InkList {
        items: vec![InkListItem {
            origin_name: "moods".to_string(),
            item_name: "calm".to_string(),
            item_value: 3,
        }],
    };
    let v = Value::from_list(l);
    let got = v.as_list().unwrap();
    assert_eq!(got.items.len(), 1);
    assert_eq!(got.items[0].origin_name, "moods");
    assert_eq!(got.items[0].item_name, "calm");
    assert_eq!(got.items[0].item_value, 3);
    assert!(v.as_bool().is_err());
}

#[test]
fn list_can_be_updated_in_place() {
    let mut v = Value::from_list(InkList { items: vec![] });
    {
        let l = v.as_list_mut().expect("list tag");
        l.items.push(InkListItem {
            origin_name: "moods".to_string(),
            item_name: "tense".to_string(),
            item_value: 1,
        });
    }
    assert_eq!(v.as_list().unwrap().items.len(), 1);

    let mut w = Value::from_int(3);
    assert!(w.as_list_mut().is_err());
    assert_eq!(w.as_int(), Ok(3));
}

#[test]
fn duplicate_is_deep() {
    let v = Value::from_text("once");
    let w = v.duplicate();
    drop(v);
    assert_eq!(w.as_string().unwrap().text, "once");
}
