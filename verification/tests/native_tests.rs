use jvm::invoke::{InvokeStep, JavaThread};
use jvm::java_lang_object::{
    get_native_methods, jvm_clone, jvm_getClass, jvm_hashCode, jvm_notifyAll,
    jvm_registerNatives, jvm_wait,
};
use jvm::native::{call_native, can_call_native, find_symbol, init, JNIEnv, MonitorAction, NativeEffect, NativeFn};
use jvm::oop::{ClassInfo, ClassTable, Heap, MethodInfo, MethodRef, Oop, RefKind, Slot, ACC_PUBLIC};
use jvm::signature::MethodSignature;
use jvm::sun_reflect_native_constructor_accessor_impl::{self as ctor_natives, jvm_newInstance0};

const ENV: JNIEnv = JNIEnv { class: 0 };

fn classes() -> ClassTable {
    ClassTable {
        classes: vec![
            ClassInfo {
                name: b"Point".to_vec(),
                mirror: Some(Oop::Ref(0)),
                methods: vec![
                    MethodInfo { name: b"<init>".to_vec(), desc: b"()V".to_vec(), acc_flags: ACC_PUBLIC, max_locals: 1 },
                    MethodInfo { name: b"<init>".to_vec(), desc: b"(II)V".to_vec(), acc_flags: ACC_PUBLIC, max_locals: 3 },
                ],
                vtable: vec![],
            },
            ClassInfo { name: b"[LPoint;".to_vec(), mirror: Some(Oop::Ref(1)), methods: vec![], vtable: vec![] },
            ClassInfo { name: b"java/lang/reflect/Constructor".to_vec(), mirror: Some(Oop::Ref(1)), methods: vec![], vtable: vec![] },
        ],
    }
}

/// 0: `Point.class`, 1: `Point[].class`, 2: a point, 3: an array of two
/// ints boxed as references, 4: a primitive array.
fn heap() -> Heap {
    let kinds = vec![
        RefKind::Mirror { target: Some(0) },
        RefKind::Mirror { target: Some(1) },
        RefKind::Inst { class: 0 },
        RefKind::Array { class: 1, elements: vec![Oop::Int(3), Oop::Int(4)] },
        RefKind::TypeArray,
    ];
    Heap { kinds, hash_codes: vec![None; 5] }
}

/// `heap()` with 5: the `Point(int, int)` constructor object and 6: the
/// `Point()` one.
fn heap_with_ctors() -> Heap {
    let mut h = heap();
    h.allocate(RefKind::Constructor { class: 2, clazz: Oop::Ref(0), signature: b"(II)V".to_vec() });
    h.allocate(RefKind::Constructor { class: 2, clazz: Oop::Ref(0), signature: b"()V".to_vec() });
    h
}

fn thread() -> JavaThread {
    JavaThread { frames: vec![], ex: None }
}

#[test]
fn object_native_table() {
    let t = get_native_methods();
    let expected: [(&str, &str, NativeFn); 6] = [
        ("registerNatives", "()V", NativeFn::ObjectRegisterNatives),
        ("hashCode", "()I", NativeFn::ObjectHashCode),
        ("clone", "()Ljava/lang/Object;", NativeFn::ObjectClone),
        ("getClass", "()Ljava/lang/Class;", NativeFn::ObjectGetClass),
        ("notifyAll", "()V", NativeFn::ObjectNotifyAll),
        ("wait", "(J)V", NativeFn::ObjectWait),
    ];
    assert_eq!(t.len(), expected.len());
    for (m, (name, sig, f)) in t.iter().zip(expected.iter()) {
        assert_eq!(m.name.as_slice(), name.as_bytes());
        assert_eq!(m.signature.as_slice(), sig.as_bytes());
        assert_eq!(m.fnptr, *f);
    }
}

#[test]
fn constructor_native_table() {
    let t = ctor_natives::get_native_methods();
    assert_eq!(t.len(), 1);
    assert_eq!(t[0].name.as_slice(), b"newInstance0");
    assert_eq!(
        t[0].signature.as_slice(),
        b"(Ljava/lang/reflect/Constructor;[Ljava/lang/Object;)Ljava/lang/Object;"
    );
    assert_eq!(t[0].fnptr, NativeFn::ConstructorNewInstance0);
}

#[test]
fn every_registered_descriptor_parses() {
    for class in init() {
        for m in class.methods {
            assert!(MethodSignature::parse(&m.signature).is_some());
        }
    }
}

#[test]
fn find_symbol_by_class_name_and_descriptor() {
    let reg = init();
    assert_eq!(find_symbol(&reg, b"java/lang/Object", b"wait", b"(J)V"), Some(NativeFn::ObjectWait));
    assert_eq!(find_symbol(&reg, b"java/lang/Object", b"wait", b"()V"), None);
    assert_eq!(find_symbol(&reg, b"java/lang/String", b"hashCode", b"()I"), None);
    assert_eq!(
        find_symbol(
            &reg,
            b"sun/reflect/NativeConstructorAccessorImpl",
            b"newInstance0",
            b"(Ljava/lang/reflect/Constructor;[Ljava/lang/Object;)Ljava/lang/Object;"
        ),
        Some(NativeFn::ConstructorNewInstance0)
    );
}

#[test]
fn register_natives_returns_nothing() {
    assert_eq!(jvm_registerNatives(ENV, vec![]), Ok(None));
}

#[test]
fn hash_code_of_null_is_zero() {
    let mut h = heap();
    assert_eq!(jvm_hashCode(ENV, vec![Oop::Null], &mut h), Ok(Some(Oop::Int(0))));
    assert_eq!(h.hash_codes, vec![None; 5]);
}

#[test]
fn hash_code_is_the_address_and_is_recorded() {
    let mut h = heap();
    assert_eq!(jvm_hashCode(ENV, vec![Oop::Ref(2)], &mut h), Ok(Some(Oop::Int(2))));
    assert_eq!(h.hash_codes, vec![None, None, Some(2), None, None]);
}

#[test]
fn hash_code_is_stable() {
    let mut h = heap();
    let first = jvm_hashCode(ENV, vec![Oop::Ref(3)], &mut h);
    let second = jvm_hashCode(ENV, vec![Oop::Ref(3)], &mut h);
    assert_eq!(first, second);
    assert_eq!(h.hash_codes[3], Some(3));
}

#[test]
fn hash_code_answers_a_recorded_hash() {
    let mut h = heap();
    h.hash_codes[4] = Some(-77);
    assert_eq!(jvm_hashCode(ENV, vec![Oop::Ref(4)], &mut h), Ok(Some(Oop::Int(-77))));
    assert_eq!(h.hash_codes[4], Some(-77));
}

#[test]
fn clone_answers_the_receiver() {
    assert_eq!(jvm_clone(ENV, vec![Oop::Ref(2)]), Ok(Some(Oop::Ref(2))));
}

#[test]
fn get_class_of_instance_array_and_class_object() {
    let h = heap();
    let c = classes();
    assert_eq!(jvm_getClass(ENV, vec![Oop::Ref(2)], &h, &c), Ok(Some(Oop::Ref(0))));
    assert_eq!(jvm_getClass(ENV, vec![Oop::Ref(3)], &h, &c), Ok(Some(Oop::Ref(1))));
    assert_eq!(jvm_getClass(ENV, vec![Oop::Ref(1)], &h, &c), Ok(Some(Oop::Ref(1))));
}

#[test]
fn notify_all_wakes_the_receivers_waiters() {
    assert_eq!(jvm_notifyAll(ENV, vec![Oop::Ref(2)]), (Ok(None), MonitorAction::NotifyAll(2)));
}

#[test]
fn wait_without_timeout_and_with_one() {
    assert_eq!(jvm_wait(ENV, vec![Oop::Ref(2), Oop::Long(0)]), (Ok(None), MonitorAction::Wait(2)));
    assert_eq!(jvm_wait(ENV, vec![Oop::Ref(2), Oop::Long(250)]), (Ok(None), MonitorAction::WaitTimeout(2, 250)));
    assert_eq!(
        jvm_wait(ENV, vec![Oop::Ref(2), Oop::Long(-1)]),
        (Ok(None), MonitorAction::WaitTimeout(2, u64::MAX))
    );
}

#[test]
fn call_native_dispatches() {
    let mut h = heap();
    let c = classes();
    let reg = init();
    let mut t = thread();
    let (r, e) = call_native(NativeFn::ObjectClone, ENV, vec![Oop::Null], &mut h, &c, &reg, &mut t);
    assert_eq!(r, Ok(Some(Oop::Null)));
    assert!(matches!(e, NativeEffect::Nothing));
    let (r, e) = call_native(NativeFn::ObjectWait, ENV, vec![Oop::Ref(2), Oop::Long(5)], &mut h, &c, &reg, &mut t);
    assert_eq!(r, Ok(None));
    assert!(matches!(e, NativeEffect::Monitor(MonitorAction::WaitTimeout(2, 5))));
    let (r, _) = call_native(NativeFn::ObjectGetClass, ENV, vec![Oop::Ref(2)], &mut h, &c, &reg, &mut t);
    assert_eq!(r, Ok(Some(Oop::Ref(0))));
    let (r, _) = call_native(NativeFn::ObjectHashCode, ENV, vec![Oop::Ref(1)], &mut h, &c, &reg, &mut t);
    assert_eq!(r, Ok(Some(Oop::Int(1))));
    assert_eq!(h.hash_codes[1], Some(1));
    assert!(t.frames.is_empty());
}

#[test]
fn call_native_runs_new_instance0_through_its_registered_tag() {
    let mut h = heap_with_ctors();
    let c = classes();
    let reg = init();
    let mut t = thread();
    let f = find_symbol(
        &reg,
        b"sun/reflect/NativeConstructorAccessorImpl",
        b"newInstance0",
        b"(Ljava/lang/reflect/Constructor;[Ljava/lang/Object;)Ljava/lang/Object;",
    )
    .unwrap();
    let (r, e) = call_native(f, ENV, vec![Oop::Ref(5), Oop::Ref(3)], &mut h, &c, &reg, &mut t);
    assert_eq!(r, Ok(Some(Oop::Ref(7))));
    match e {
        NativeEffect::Construct(call, plan) => {
            assert_eq!(call.mir, MethodRef { class: 0, index: 1 });
            assert_eq!(call.args, vec![Oop::Ref(7), Oop::Int(3), Oop::Int(4)]);
            assert_eq!(plan.step, InvokeStep::Interpret);
            assert_eq!(t.frames.len(), 1);
            let exit = call.finish_ctor(&c, &mut t, Ok(None));
            assert_eq!(exit, None);
            assert!(t.frames.is_empty());
        }
        _ => panic!("expected a constructor call"),
    }
}

#[test]
fn new_instance0_allocates_and_starts_the_constructor_call() {
    let mut h = heap_with_ctors();
    let c = classes();
    let reg = init();
    let mut t = thread();
    let (result, call, plan) = jvm_newInstance0(ENV, vec![Oop::Ref(5), Oop::Ref(3)], &mut h, &c, &reg, &mut t);
    assert_eq!(result, Ok(Some(Oop::Ref(7))));
    assert_eq!(h.kinds.len(), 8);
    assert!(matches!(h.kinds[7], RefKind::Inst { class: 0 }));
    assert_eq!(h.hash_codes[7], None);
    assert_eq!(call.mir, MethodRef { class: 0, index: 1 });
    assert_eq!(call.args, vec![Oop::Ref(7), Oop::Int(3), Oop::Int(4)]);
    assert_eq!(plan.monitor_enter, None);
    assert_eq!(plan.step, InvokeStep::Interpret);
    assert_eq!(t.frames.len(), 1);
    assert_eq!(t.frames[0].locals, vec![Slot::Ref(Oop::Ref(7)), Slot::I32(3), Slot::I32(4)]);
}

#[test]
fn new_instance0_with_null_arguments() {
    let mut h = heap_with_ctors();
    let c = classes();
    let reg = init();
    let mut t = thread();
    let (result, call, _) = jvm_newInstance0(ENV, vec![Oop::Ref(6), Oop::Null], &mut h, &c, &reg, &mut t);
    assert_eq!(result, Ok(Some(Oop::Ref(7))));
    assert_eq!(call.mir, MethodRef { class: 0, index: 0 });
    assert_eq!(call.args, vec![Oop::Ref(7)]);
}

#[test]
fn get_class_of_a_constructor_object() {
    let h = heap_with_ctors();
    let c = classes();
    assert_eq!(jvm_getClass(ENV, vec![Oop::Ref(5)], &h, &c), Ok(Some(Oop::Ref(1))));
}

#[test]
fn can_call_native_checks_arguments() {
    let h = heap_with_ctors();
    let c = classes();
    let reg = init();
    let t = thread();
    assert!(can_call_native(NativeFn::ObjectGetClass, &h, &c, &reg, &t, &vec![Oop::Ref(2)]));
    assert!(!can_call_native(NativeFn::ObjectGetClass, &h, &c, &reg, &t, &vec![Oop::Ref(4)]));
    assert!(!can_call_native(NativeFn::ObjectWait, &h, &c, &reg, &t, &vec![Oop::Ref(2), Oop::Int(1)]));
    assert!(can_call_native(NativeFn::ObjectHashCode, &h, &c, &reg, &t, &vec![Oop::Null]));
    assert!(!can_call_native(NativeFn::ObjectHashCode, &h, &c, &reg, &t, &vec![Oop::Ref(9)]));
    assert!(can_call_native(NativeFn::ConstructorNewInstance0, &h, &c, &reg, &t, &vec![Oop::Ref(5), Oop::Ref(3)]));
    assert!(can_call_native(NativeFn::ConstructorNewInstance0, &h, &c, &reg, &t, &vec![Oop::Ref(6), Oop::Null]));
    // The Point() constructor has no room for two more arguments.
    assert!(!can_call_native(NativeFn::ConstructorNewInstance0, &h, &c, &reg, &t, &vec![Oop::Ref(6), Oop::Ref(3)]));
    // Not a constructor object.
    assert!(!can_call_native(NativeFn::ConstructorNewInstance0, &h, &c, &reg, &t, &vec![Oop::Ref(2), Oop::Null]));
}
