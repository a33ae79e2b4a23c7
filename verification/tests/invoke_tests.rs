use jvm::invoke::{
    build_method_args, invoke_ctor, set_return, Frame, InvokeStep, JavaCall, JavaThread,
    THREAD_MAX_STACK_FRAMES,
};
use jvm::native::{self, JNIEnv, JavaException, MonitorTarget, NativeFn};
use jvm::oop::{
    ClassInfo, ClassTable, Heap, MethodInfo, MethodRef, Oop, RefKind, Slot, Stack, ACC_FINAL,
    ACC_NATIVE, ACC_PRIVATE, ACC_PUBLIC, ACC_STATIC, ACC_SYNCHRONIZED,
};
use jvm::signature::{MethodSignature, SignatureType};

fn method(name: &str, desc: &str, flags: u16, max_locals: usize) -> MethodInfo {
    MethodInfo { name: name.as_bytes().to_vec(), desc: desc.as_bytes().to_vec(), acc_flags: flags, max_locals }
}

/// Class 0 `A` declares `run()I` (public), `sum(IJ)J` (static), `<init>(I)V`
/// and `lock()V` (synchronized); class 1 `B` overrides `run()I`.
fn classes() -> ClassTable {
    let a = ClassInfo {
        name: b"A".to_vec(),
        mirror: None,
        methods: vec![
            method("run", "()I", ACC_PUBLIC, 1),
            method("sum", "(IJ)J", ACC_PUBLIC | ACC_STATIC, 3),
            method("<init>", "(I)V", ACC_PUBLIC, 2),
            method("lock", "()V", ACC_PUBLIC | ACC_SYNCHRONIZED | ACC_FINAL, 1),
            method("hashCode", "()I", ACC_PUBLIC | ACC_NATIVE, 1),
        ],
        vtable: vec![MethodRef { class: 0, index: 0 }, MethodRef { class: 0, index: 3 }],
    };
    let b = ClassInfo {
        name: b"B".to_vec(),
        mirror: None,
        methods: vec![method("run", "()I", ACC_PUBLIC, 1)],
        vtable: vec![MethodRef { class: 1, index: 0 }, MethodRef { class: 0, index: 3 }],
    };
    let object = ClassInfo {
        name: b"java/lang/Object".to_vec(),
        mirror: None,
        methods: vec![method("hashCode", "()I", ACC_PUBLIC | ACC_NATIVE, 1)],
        vtable: vec![MethodRef { class: 2, index: 0 }],
    };
    ClassTable { classes: vec![a, b, object] }
}

fn heap_with(kinds: Vec<RefKind>) -> Heap {
    let n = kinds.len();
    Heap { kinds, hash_codes: vec![None; n] }
}

fn thread() -> JavaThread {
    JavaThread { frames: Vec::new(), ex: None }
}

#[test]
fn build_method_args_pops_last_argument_first() {
    let mut st = Stack::new();
    st.push_int(7);
    st.push_long(-9);
    st.push_ref(Oop::Null);
    let sig = MethodSignature::new(b"(IJLjava/lang/Object;)V");
    let popped = build_method_args(&mut st, &sig);
    assert_eq!(popped, vec![Oop::Null, Oop::Long(-9), Oop::Int(7)]);
    assert!(st.inner.is_empty());
}

#[test]
fn push_then_pop_gives_back_the_values() {
    let mut st = Stack::new();
    st.push_ref(Oop::Ref(3));
    st.push_float(0x3f80_0000);
    st.push_double(0x4000_0000_0000_0000);
    assert_eq!(st.inner.len(), 4);
    assert_eq!(st.pop_double(), 0x4000_0000_0000_0000);
    assert_eq!(st.pop_float(), 0x3f80_0000);
    assert_eq!(st.pop_ref(), Oop::Ref(3));
    assert!(st.inner.is_empty());
}

#[test]
fn new_static_call_takes_arguments_in_order() {
    let cls = classes();
    let mut st = Stack::new();
    st.push_int(42);
    st.push_int(1);
    st.push_long(5);
    let mut t = thread();
    let call = JavaCall::new(&mut st, &cls, MethodRef { class: 0, index: 1 }, &mut t).unwrap();
    assert_eq!(call.args, vec![Oop::Int(1), Oop::Long(5)]);
    assert!(matches!(call.return_type, SignatureType::Long));
    assert_eq!(st.inner, vec![Slot::I32(42)]);
    assert!(t.ex.is_none());
}

#[test]
fn new_instance_call_puts_the_receiver_first() {
    let cls = classes();
    let mut st = Stack::new();
    st.push_ref(Oop::Ref(0));
    let mut t = thread();
    let call = JavaCall::new(&mut st, &cls, MethodRef { class: 0, index: 0 }, &mut t).unwrap();
    assert_eq!(call.args, vec![Oop::Ref(0)]);
    assert!(matches!(call.return_type, SignatureType::Int));
    assert!(st.inner.is_empty());
}

#[test]
fn new_with_null_receiver_throws_null_pointer() {
    let cls = classes();
    let mut st = Stack::new();
    st.push_ref(Oop::Null);
    let mut t = thread();
    assert!(JavaCall::new(&mut st, &cls, MethodRef { class: 0, index: 0 }, &mut t).is_err());
    assert_eq!(t.ex, Some(JavaException::NullPointer));
    assert!(st.inner.is_empty());
}

#[test]
fn new_with_args_takes_the_return_type_from_the_descriptor() {
    let cls = classes();
    let call = JavaCall::new_with_args(&cls, MethodRef { class: 0, index: 2 }, vec![Oop::Ref(1), Oop::Int(3)]);
    assert_eq!(call.args, vec![Oop::Ref(1), Oop::Int(3)]);
    assert!(matches!(call.return_type, SignatureType::Void));
}

#[test]
fn set_return_pushes_by_type() {
    let mut st = Stack::new();
    set_return(Some(&mut st), SignatureType::Int, Some(Oop::Int(-1)));
    set_return(Some(&mut st), SignatureType::Long, Some(Oop::Long(2)));
    set_return(Some(&mut st), SignatureType::Float, Some(Oop::Float(3)));
    set_return(Some(&mut st), SignatureType::Double, Some(Oop::Double(4)));
    set_return(Some(&mut st), SignatureType::Object(b"LA;".to_vec()), Some(Oop::Null));
    set_return(Some(&mut st), SignatureType::Void, None);
    assert_eq!(
        st.inner,
        vec![
            Slot::I32(-1),
            Slot::I64(2),
            Slot::Nop,
            Slot::F32(3),
            Slot::F64(4),
            Slot::Nop,
            Slot::Ref(Oop::Null),
        ]
    );
    set_return(None, SignatureType::Void, None);
}

#[test]
fn returned_value_is_what_the_caller_pops() {
    let mut st = Stack::new();
    set_return(Some(&mut st), SignatureType::Boolean, Some(Oop::Int(1)));
    assert_eq!(st.pop_int(), 1);
    set_return(Some(&mut st), SignatureType::Array(b"[I".to_vec()), Some(Oop::Ref(9)));
    assert_eq!(st.pop_ref(), Oop::Ref(9));
}

#[test]
fn prepare_frame_lays_out_arguments_by_slot_size() {
    let mut cls = classes();
    cls.classes[0].methods[1].max_locals = 9;
    let call = JavaCall {
        mir: MethodRef { class: 0, index: 1 },
        args: vec![Oop::Int(1), Oop::Long(2), Oop::Ref(3), Oop::Double(4), Oop::Float(5), Oop::Null],
        return_type: SignatureType::Long,
    };
    let f = call.prepare_frame(&cls, 4, false).unwrap();
    assert_eq!(f.frame_id, 5);
    assert_eq!(f.mir, MethodRef { class: 0, index: 1 });
    assert_eq!(
        f.locals,
        vec![
            Slot::I32(1),
            Slot::I64(2),
            Slot::Nop,
            Slot::Ref(Oop::Ref(3)),
            Slot::F64(4),
            Slot::Nop,
            Slot::F32(5),
            Slot::Ref(Oop::Null),
            Slot::Nop,
        ]
    );
    assert!(f.stack.inner.is_empty());
    assert!(f.return_v.is_none());
}

#[test]
fn prepare_frame_for_native_leaves_locals_empty() {
    let cls = classes();
    let call = JavaCall { mir: MethodRef { class: 0, index: 2 }, args: vec![Oop::Ref(0), Oop::Int(1)], return_type: SignatureType::Void };
    let f = call.prepare_frame(&cls, 0, true).unwrap();
    assert_eq!(f.frame_id, 1);
    assert_eq!(f.locals, vec![Slot::Nop, Slot::Nop]);
}

#[test]
fn prepare_frame_on_a_full_thread_overflows() {
    let cls = classes();
    let call = JavaCall { mir: MethodRef { class: 0, index: 0 }, args: vec![Oop::Ref(0)], return_type: SignatureType::Int };
    assert!(matches!(call.prepare_frame(&cls, THREAD_MAX_STACK_FRAMES, false), Err(JavaException::StackOverflow)));
    assert!(call.prepare_frame(&cls, THREAD_MAX_STACK_FRAMES - 1, false).is_ok());
}

#[test]
fn virtual_call_dispatches_on_the_receiver_class() {
    let cls = classes();
    let heap = heap_with(vec![RefKind::Inst { class: 1 }]);
    let mut call = JavaCall { mir: MethodRef { class: 0, index: 0 }, args: vec![Oop::Ref(0)], return_type: SignatureType::Int };
    call.resolve_virtual_method(false, &heap, &cls);
    assert_eq!(call.mir, MethodRef { class: 1, index: 0 });
}

#[test]
fn forced_call_keeps_its_method() {
    let cls = classes();
    let heap = heap_with(vec![RefKind::Inst { class: 1 }]);
    let mut call = JavaCall { mir: MethodRef { class: 0, index: 0 }, args: vec![Oop::Ref(0)], return_type: SignatureType::Int };
    call.resolve_virtual_method(true, &heap, &cls);
    assert_eq!(call.mir, MethodRef { class: 0, index: 0 });
}

#[test]
fn final_method_is_not_looked_up_again() {
    let mut cls = classes();
    cls.classes[0].methods[0].acc_flags = ACC_PUBLIC | ACC_FINAL;
    let heap = heap_with(vec![RefKind::Inst { class: 1 }]);
    let mut call = JavaCall { mir: MethodRef { class: 0, index: 0 }, args: vec![Oop::Ref(0)], return_type: SignatureType::Int };
    call.resolve_virtual_method(false, &heap, &cls);
    assert_eq!(call.mir, MethodRef { class: 0, index: 0 });
}

#[test]
fn private_method_is_not_looked_up_again_but_flagless_one_is() {
    let mut cls = classes();
    let heap = heap_with(vec![RefKind::Inst { class: 1 }]);
    cls.classes[0].methods[0].acc_flags = ACC_PRIVATE;
    let mut call = JavaCall { mir: MethodRef { class: 0, index: 0 }, args: vec![Oop::Ref(0)], return_type: SignatureType::Int };
    call.resolve_virtual_method(false, &heap, &cls);
    assert_eq!(call.mir, MethodRef { class: 0, index: 0 });
    cls.classes[0].methods[0].acc_flags = 0;
    call.resolve_virtual_method(false, &heap, &cls);
    assert_eq!(call.mir, MethodRef { class: 1, index: 0 });
}

#[test]
fn failed_lookup_keeps_the_method() {
    let cls = classes();
    let heap = heap_with(vec![RefKind::Inst { class: 0 }]);
    let mut call = JavaCall { mir: MethodRef { class: 0, index: 2 }, args: vec![Oop::Ref(0), Oop::Int(1)], return_type: SignatureType::Void };
    call.resolve_virtual_method(false, &heap, &cls);
    assert_eq!(call.mir, MethodRef { class: 0, index: 2 });
}

#[test]
fn receiver_that_is_not_an_instance_keeps_the_method() {
    let cls = classes();
    let heap = heap_with(vec![RefKind::Mirror { target: Some(1) }]);
    let mut call = JavaCall { mir: MethodRef { class: 0, index: 0 }, args: vec![Oop::Ref(0)], return_type: SignatureType::Int };
    call.resolve_virtual_method(false, &heap, &cls);
    assert_eq!(call.mir, MethodRef { class: 0, index: 0 });
}

#[test]
fn synchronized_methods_lock_receiver_or_class() {
    let mut cls = classes();
    let call = JavaCall { mir: MethodRef { class: 0, index: 3 }, args: vec![Oop::Ref(4)], return_type: SignatureType::Void };
    assert_eq!(call.sync_target(&cls), Some(MonitorTarget::Object(4)));
    cls.classes[0].methods[3].acc_flags |= ACC_STATIC;
    assert_eq!(call.sync_target(&cls), Some(MonitorTarget::Class(0)));
    let plain = JavaCall { mir: MethodRef { class: 0, index: 0 }, args: vec![Oop::Ref(4)], return_type: SignatureType::Int };
    assert_eq!(plain.sync_target(&cls), None);
}

#[test]
fn java_call_pushes_a_frame_and_finishing_returns_the_value() {
    let cls = classes();
    let heap = heap_with(vec![RefKind::Inst { class: 1 }]);
    let natives = native::init();
    let mut t = thread();
    let mut caller = Stack::new();
    let mut call = JavaCall { mir: MethodRef { class: 0, index: 0 }, args: vec![Oop::Ref(0)], return_type: SignatureType::Int };
    let plan = call.invoke(false, &heap, &cls, &natives, &mut t);
    assert_eq!(plan.step, InvokeStep::Interpret);
    assert_eq!(plan.monitor_enter, None);
    assert_eq!(t.frames.len(), 1);
    assert_eq!(t.frames[0].mir, MethodRef { class: 1, index: 0 });
    assert_eq!(t.frames[0].locals, vec![Slot::Ref(Oop::Ref(0))]);
    let exit = call.finish_invoke(&cls, &mut t, Some(&mut caller), Ok(Some(Oop::Int(11))));
    assert_eq!(exit, None);
    assert!(t.frames.is_empty());
    assert_eq!(caller.inner, vec![Slot::I32(11)]);
}

#[test]
fn synchronized_call_enters_and_leaves_the_same_monitor() {
    let cls = classes();
    let heap = heap_with(vec![RefKind::Inst { class: 0 }]);
    let natives = native::init();
    let mut t = thread();
    let mut call = JavaCall { mir: MethodRef { class: 0, index: 3 }, args: vec![Oop::Ref(0)], return_type: SignatureType::Void };
    let plan = call.invoke(false, &heap, &cls, &natives, &mut t);
    assert_eq!(plan.monitor_enter, Some(MonitorTarget::Object(0)));
    let exit = call.finish_invoke(&cls, &mut t, None, Ok(None));
    assert_eq!(exit, plan.monitor_enter);
    assert!(t.frames.is_empty());
}

#[test]
fn native_call_runs_its_registered_function() {
    let cls = classes();
    let mut heap = heap_with(vec![RefKind::Inst { class: 2 }]);
    let natives = native::init();
    let mut t = thread();
    let mut caller = Stack::new();
    let mut call = JavaCall { mir: MethodRef { class: 2, index: 0 }, args: vec![Oop::Ref(0)], return_type: SignatureType::Int };
    let plan = call.invoke(false, &heap, &cls, &natives, &mut t);
    assert_eq!(plan.step, InvokeStep::CallNative(NativeFn::ObjectHashCode, JNIEnv { class: 2 }));
    assert_eq!(t.frames[0].locals, vec![Slot::Nop]);
    let (result, effect) = native::call_native(
        NativeFn::ObjectHashCode,
        JNIEnv { class: 2 },
        call.args.clone(),
        &mut heap,
        &cls,
        &natives,
        &mut t,
    );
    assert!(matches!(effect, native::NativeEffect::Nothing));
    assert_eq!(t.frames.len(), 1);
    call.finish_invoke(&cls, &mut t, Some(&mut caller), result);
    assert_eq!(caller.inner, vec![Slot::I32(0)]);
    assert_eq!(heap.hash_codes, vec![Some(0)]);
}

#[test]
fn exception_outcome_becomes_pending_and_pushes_nothing() {
    let cls = classes();
    let mut t = thread();
    t.frames.push(Frame::new(MethodRef { class: 0, index: 0 }, 1, 1));
    let mut caller = Stack::new();
    let call = JavaCall { mir: MethodRef { class: 0, index: 0 }, args: vec![Oop::Ref(0)], return_type: SignatureType::Int };
    call.finish_invoke(&cls, &mut t, Some(&mut caller), Err(JavaException::NullPointer));
    assert_eq!(t.ex, Some(JavaException::NullPointer));
    assert!(caller.inner.is_empty());
    assert!(t.frames.is_empty());
}

#[test]
fn pending_exception_discards_the_return_value() {
    let cls = classes();
    let mut t = thread();
    t.ex = Some(JavaException::StackOverflow);
    let mut caller = Stack::new();
    let call = JavaCall { mir: MethodRef { class: 0, index: 0 }, args: vec![Oop::Ref(0)], return_type: SignatureType::Int };
    call.finish_invoke(&cls, &mut t, Some(&mut caller), Ok(Some(Oop::Int(1))));
    assert!(caller.inner.is_empty());
    assert_eq!(t.ex, Some(JavaException::StackOverflow));
}

#[test]
fn call_on_a_full_thread_raises_stack_overflow() {
    let cls = classes();
    let heap = heap_with(vec![RefKind::Inst { class: 0 }]);
    let natives = native::init();
    let mut t = thread();
    for i in 0..THREAD_MAX_STACK_FRAMES {
        t.frames.push(Frame::new(MethodRef { class: 0, index: 0 }, i + 1, 0));
    }
    let mut call = JavaCall { mir: MethodRef { class: 0, index: 0 }, args: vec![Oop::Ref(0)], return_type: SignatureType::Int };
    let plan = call.invoke(true, &heap, &cls, &natives, &mut t);
    assert_eq!(plan.step, InvokeStep::Raise(JavaException::StackOverflow));
    assert_eq!(t.frames.len(), THREAD_MAX_STACK_FRAMES);
}

#[test]
fn invoke_ctor_finds_the_initialiser_by_descriptor_and_starts_it() {
    let cls = classes();
    let heap = heap_with(vec![RefKind::Inst { class: 0 }]);
    let natives = native::init();
    let mut t = thread();
    let (call, plan) = invoke_ctor(&cls, 0, b"(I)V", vec![Oop::Ref(0), Oop::Int(8)], &heap, &natives, &mut t);
    assert_eq!(call.mir, MethodRef { class: 0, index: 2 });
    assert_eq!(call.args, vec![Oop::Ref(0), Oop::Int(8)]);
    assert!(matches!(call.return_type, SignatureType::Void));
    assert_eq!(plan.step, InvokeStep::Interpret);
    assert_eq!(t.frames.len(), 1);
    assert_eq!(t.frames[0].locals, vec![Slot::Ref(Oop::Ref(0)), Slot::I32(8)]);
    call.finish_ctor(&cls, &mut t, Err(JavaException::NullPointer));
    assert!(t.frames.is_empty());
    assert_eq!(t.ex, Some(JavaException::NullPointer));
}

#[test]
fn constructor_dispatches_on_the_new_object_class() {
    let mut cls = classes();
    cls.classes[1].methods.push(method("<init>", "(I)V", ACC_PUBLIC, 2));
    cls.classes[0].vtable.push(MethodRef { class: 0, index: 2 });
    cls.classes[1].vtable.push(MethodRef { class: 1, index: 1 });
    let heap = heap_with(vec![RefKind::Inst { class: 1 }]);
    let natives = native::init();
    let mut t = thread();
    let (call, _) = invoke_ctor(&cls, 0, b"(I)V", vec![Oop::Ref(0), Oop::Int(8)], &heap, &natives, &mut t);
    assert_eq!(call.mir, MethodRef { class: 1, index: 1 });
}

#[test]
fn full_thread_overflows_whatever_the_arguments() {
    let cls = classes();
    let heap = heap_with(vec![RefKind::Inst { class: 0 }]);
    let natives = native::init();
    let mut t = thread();
    for i in 0..THREAD_MAX_STACK_FRAMES {
        t.frames.push(Frame::new(MethodRef { class: 0, index: 0 }, i + 1, 0));
    }
    let mut call = JavaCall {
        mir: MethodRef { class: 0, index: 0 },
        args: vec![Oop::Ref(0), Oop::Long(1), Oop::Long(2)],
        return_type: SignatureType::Int,
    };
    assert!(call.can_invoke(true, &heap, &cls, &natives, &t));
    let plan = call.invoke(true, &heap, &cls, &natives, &mut t);
    assert_eq!(plan.step, InvokeStep::Raise(JavaException::StackOverflow));
    assert!(matches!(
        call.prepare_frame(&cls, THREAD_MAX_STACK_FRAMES, false),
        Err(JavaException::StackOverflow)
    ));
}

#[test]
fn class_table_lookups() {
    let cls = classes();
    assert_eq!(cls.get_this_class_method(0, b"sum", b"(IJ)J"), Some(MethodRef { class: 0, index: 1 }));
    assert_eq!(cls.get_this_class_method(0, b"sum", b"(II)J"), None);
    assert_eq!(cls.get_virtual_method(1, b"lock", b"()V"), Some(MethodRef { class: 0, index: 3 }));
    assert_eq!(cls.get_virtual_method(1, b"sum", b"(IJ)J"), None);
}

#[test]
fn can_invoke_checks_receiver_and_registration() {
    let cls = classes();
    let natives = native::init();
    let heap = heap_with(vec![RefKind::Inst { class: 1 }, RefKind::Inst { class: 0 }]);
    let ok = JavaCall { mir: MethodRef { class: 0, index: 0 }, args: vec![Oop::Ref(0)], return_type: SignatureType::Int };
    assert!(ok.can_invoke(false, &heap, &cls, &natives, &thread()));
    let null_receiver = JavaCall { mir: MethodRef { class: 0, index: 0 }, args: vec![Oop::Null], return_type: SignatureType::Int };
    assert!(!null_receiver.can_invoke(false, &heap, &cls, &natives, &thread()));
    assert!(null_receiver.can_invoke(true, &heap, &cls, &natives, &thread()));
    let unregistered = JavaCall { mir: MethodRef { class: 0, index: 4 }, args: vec![Oop::Ref(1)], return_type: SignatureType::Int };
    assert!(!unregistered.can_invoke(false, &heap, &cls, &natives, &thread()));
    let too_many = JavaCall { mir: MethodRef { class: 0, index: 0 }, args: vec![Oop::Ref(1), Oop::Long(1)], return_type: SignatureType::Int };
    assert!(!too_many.can_invoke(true, &heap, &cls, &natives, &thread()));
}

#[test]
fn can_finish_checks_the_return_value() {
    let cls = classes();
    let t = thread();
    let call = JavaCall { mir: MethodRef { class: 0, index: 0 }, args: vec![Oop::Ref(0)], return_type: SignatureType::Int };
    assert!(call.can_finish(&cls, &t, true, &Ok(Some(Oop::Int(1)))));
    assert!(!call.can_finish(&cls, &t, false, &Ok(Some(Oop::Int(1)))));
    assert!(!call.can_finish(&cls, &t, true, &Ok(Some(Oop::Long(1)))));
    assert!(!call.can_finish(&cls, &t, true, &Ok(None)));
    assert!(call.can_finish(&cls, &t, false, &Err(JavaException::NullPointer)));
}
