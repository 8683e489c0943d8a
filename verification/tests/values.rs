use rn_lang::errors::{LangError, RuntimeErrorKind};
use rn_lang::external_functions::ExternalFunctionRunner;
use rn_lang::helper::{Helper, HelperRegistry};
use rn_lang::lang_value::{ConvertLangValue, LangObject, LangValue, LangValueDiscriminant, ObjectHeap};

fn int_of(v: &LangValue) -> Option<i32> {
    match v {
        LangValue::Int(i) => Some(*i),
        _ => None,
    }
}

#[test]
fn object_get_after_set() {
    let mut heap = ObjectHeap::new();
    let mut o = LangObject::new(&mut heap);
    assert_eq!(o.len(&heap), 0);
    assert!(matches!(o.get(&heap, &"a".to_string()), LangValue::Nothing));
    o.set(&mut heap, "a".to_string(), LangValue::Int(1));
    o.set(&mut heap, "b".to_string(), LangValue::Bool(true));
    assert_eq!(o.len(&heap), 2);
    assert_eq!(int_of(&o.get(&heap, &"a".to_string())), Some(1));
    o.set(&mut heap, "a".to_string(), LangValue::Int(7));
    assert_eq!(o.len(&heap), 2);
    assert_eq!(int_of(&o.get(&heap, &"a".to_string())), Some(7));
    assert!(matches!(o.get(&heap, &"b".to_string()), LangValue::Bool(true)));
}

#[test]
fn object_from_entries() {
    let mut heap = ObjectHeap::new();
    let o = LangObject::from_map(&mut heap, vec![
        ("x".to_string(), LangValue::Int(1)),
        ("y".to_string(), LangValue::String("s".to_string())),
        ("x".to_string(), LangValue::Int(2)),
    ]);
    assert_eq!(o.len(&heap), 2);
    assert_eq!(int_of(&o.get(&heap, &"x".to_string())), Some(2));
    match o.get(&heap, &"y".to_string()) {
        LangValue::String(s) => assert_eq!(s, "s"),
        _ => panic!("not a string"),
    }
}

#[test]
fn nested_values_are_copied() {
    let mut heap = ObjectHeap::new();
    let mut inner = LangObject::new(&mut heap);
    inner.set(&mut heap, "k".to_string(), LangValue::Vector(vec![LangValue::Int(1), LangValue::Int(2)]));
    let mut outer = LangObject::new(&mut heap);
    outer.set(&mut heap, "inner".to_string(), LangValue::Object(inner));
    match outer.get(&heap, &"inner".to_string()) {
        LangValue::Object(o) => match o.get(&heap, &"k".to_string()) {
            LangValue::Vector(v) => assert_eq!(v.len(), 2),
            _ => panic!("not a vector"),
        },
        _ => panic!("not an object"),
    }
}

#[test]
fn copies_of_an_object_share_its_fields() {
    let mut heap = ObjectHeap::new();
    let mut a = LangObject::new(&mut heap);
    let b = a.clone_object();
    let mut c = LangObject::new(&mut heap);
    a.set(&mut heap, "f".to_string(), LangValue::Int(3));
    assert_eq!(int_of(&b.get(&heap, &"f".to_string())), Some(3));
    assert_eq!(b.len(&heap), 1);
    assert!(matches!(c.get(&heap, &"f".to_string()), LangValue::Nothing));
    c.set(&mut heap, "f".to_string(), LangValue::Int(4));
    assert_eq!(int_of(&a.get(&heap, &"f".to_string())), Some(3));
    match LangValue::Object(b).clone_value() {
        LangValue::Object(d) => {
            let mut d = d;
            d.set(&mut heap, "g".to_string(), LangValue::Bool(false));
            assert!(matches!(a.get(&heap, &"g".to_string()), LangValue::Bool(false)));
        },
        _ => panic!("not an object"),
    }
}

#[test]
fn a_foreign_handle_reads_nothing() {
    let heap = ObjectHeap::new();
    let o = LangObject { id: 5 };
    assert!(matches!(o.get(&heap, &"x".to_string()), LangValue::Nothing));
    assert_eq!(o.len(&heap), 0);
}

#[test]
fn conversions() {
    assert_eq!(int_of(&<i32 as ConvertLangValue>::from(5)), Some(5));
    assert_eq!(<i32 as ConvertLangValue>::into(&LangValue::Int(3)), Some(3));
    assert_eq!(<i32 as ConvertLangValue>::into(&LangValue::Bool(true)), None);
    assert_eq!(<bool as ConvertLangValue>::into(&LangValue::Bool(true)), Some(true));
    assert_eq!(<String as ConvertLangValue>::into(&LangValue::String("a".to_string())), Some("a".to_string()));
    assert_eq!(<() as ConvertLangValue>::into(&LangValue::Nothing), Some(()));
    assert_eq!(<() as ConvertLangValue>::into(&LangValue::Int(0)), None);
    assert!(matches!(<() as ConvertLangValue>::from(()), LangValue::Nothing));
    assert!(<LangObject as ConvertLangValue>::into(&LangValue::Int(0)).is_none());
    assert!(<LangObject as ConvertLangValue>::into(&LangValue::Object(LangObject { id: 0 })).is_some());
    assert!(matches!(<LangValue as ConvertLangValue>::into(&LangValue::Float(0x3f800000)), Some(LangValue::Float(0x3f800000))));
}

#[test]
fn helpers_by_kind() {
    let mut h = Helper::new();
    h.register("len", 3i32);
    h.register("name", "str".to_string());
    h.register("len", 4i32);
    assert_eq!(h.get(&"len".to_string()).and_then(int_of), Some(4));
    assert!(h.get(&"missing".to_string()).is_none());

    let mut registry = HelperRegistry::new();
    assert!(registry.get_helper(&LangValue::String("x".to_string())).is_none());
    registry.register_helper(LangValueDiscriminant::String, h);
    let found = registry.get_helper(&LangValue::String("x".to_string())).unwrap();
    assert_eq!(found.get(&"len".to_string()).and_then(int_of), Some(4));
    assert!(registry.get_helper_from_discriminant(LangValueDiscriminant::Int).is_none());
    assert!(registry.get_helper_from_discriminant(LangValueDiscriminant::String).is_some());
}

#[test]
fn external_functions() {
    let double = ExternalFunctionRunner::new(1, |args: Vec<LangValue>| match &args[0] {
        LangValue::Int(i) => Some(LangValue::Int(i * 2)),
        _ => None,
    });
    assert_eq!(double.run(vec![LangValue::Int(21)]).ok().as_ref().and_then(int_of), Some(42));
    assert!(matches!(
        double.run(vec![]),
        Err(LangError::Runtime { kind: RuntimeErrorKind::ExtFuncParamCount(1, 0) })
    ));
    assert!(matches!(
        double.run(vec![LangValue::Bool(true)]),
        Err(LangError::Runtime { kind: RuntimeErrorKind::ExtFuncParamType })
    ));
}
