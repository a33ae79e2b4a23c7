//! The native methods of `java.lang.Object`.
#![allow(non_snake_case)]

use vstd::prelude::*;

use crate::native::{binds, first_native_from, lemma_ascii_literal, native_answer, new_fn, JNIEnv, JNINativeMethod, JNIResult, MonitorAction, NativeFn};
use crate::signature::{name_end, params_from, spec_parse_method};
use vstd::string::StringSliceAdditionalSpecFns;
use crate::oop::{long_of, ref_of, ClassTable, Heap, Oop, RefKind};

verus! {

/// `ms` is the native method table of `java.lang.Object`.
pub open spec fn is_native_table(ms: Seq<JNINativeMethod>) -> bool {
    &&& ms.len() == 6
    &&& binds(ms[0], "registerNatives", "()V", NativeFn::ObjectRegisterNatives)
    &&& binds(ms[1], "hashCode", "()I", NativeFn::ObjectHashCode)
    &&& binds(ms[2], "clone", "()Ljava/lang/Object;", NativeFn::ObjectClone)
    &&& binds(ms[3], "getClass", "()Ljava/lang/Class;", NativeFn::ObjectGetClass)
    &&& binds(ms[4], "notifyAll", "()V", NativeFn::ObjectNotifyAll)
    &&& binds(ms[5], "wait", "(J)V", NativeFn::ObjectWait)
}

/// Law: every descriptor in the table is a well-formed method descriptor.
pub proof fn lemma_native_table_descriptors(ms: Seq<JNINativeMethod>)
    requires
        is_native_table(ms),
    ensures
        forall|k: int| 0 <= k < ms.len() ==> spec_parse_method(#[trigger] ms[k].signature@) is Some,
{
    reveal_strlit("()V");
    lemma_ascii_literal("()V");
    assert("()V".spec_bytes() =~= seq![40u8, 41, 86]);
    reveal_strlit("()I");
    lemma_ascii_literal("()I");
    assert("()I".spec_bytes() =~= seq![40u8, 41, 73]);
    reveal_strlit("()Ljava/lang/Object;");
    lemma_ascii_literal("()Ljava/lang/Object;");
    assert("()Ljava/lang/Object;".spec_bytes() =~= seq![40u8, 41, 76, 106, 97, 118, 97, 47, 108, 97, 110, 103, 47, 79, 98, 106, 101, 99, 116, 59]);
    reveal_strlit("()Ljava/lang/Class;");
    lemma_ascii_literal("()Ljava/lang/Class;");
    assert("()Ljava/lang/Class;".spec_bytes() =~= seq![40u8, 41, 76, 106, 97, 118, 97, 47, 108, 97, 110, 103, 47, 67, 108, 97, 115, 115, 59]);
    reveal_strlit("(J)V");
    lemma_ascii_literal("(J)V");
    assert("(J)V".spec_bytes() =~= seq![40u8, 74, 41, 86]);
    reveal_with_fuel(name_end, 20);
    reveal_with_fuel(params_from, 2);
    assert(spec_parse_method(ms[0].signature@) is Some);
    assert(spec_parse_method(ms[1].signature@) is Some);
    assert(spec_parse_method(ms[2].signature@) is Some);
    assert(spec_parse_method(ms[3].signature@) is Some);
    assert(spec_parse_method(ms[4].signature@) is Some);
    assert(spec_parse_method(ms[5].signature@) is Some);
}

/// Law: the six entries of the table have distinct names, so a lookup by
/// name and descriptor finds exactly the entry asked for; and the function
/// that each entry names answers as the `jvm_` function of its name does.
pub proof fn lemma_native_table_dispatch(
    ms: Seq<JNINativeMethod>,
    heap: &Heap,
    classes: &ClassTable,
    args: Seq<Oop>,
)
    requires
        is_native_table(ms),
    ensures
        forall|i: int, j: int| 0 <= i < j < ms.len() ==> ms[i].name@ != ms[j].name@,
        forall|k: int|
            0 <= k < ms.len() ==> first_native_from(ms, #[trigger] ms[k].name@, ms[k].signature@, 0)
                == Some(k),
        native_answer(ms[0].fnptr, heap, classes, args) == Some((register_natives_answer(), None::<MonitorAction>)),
        native_answer(ms[1].fnptr, heap, classes, args) == Some((hash_code_answer(heap.hash_codes@, args), None::<MonitorAction>)),
        native_answer(ms[2].fnptr, heap, classes, args) == Some((clone_answer(args), None::<MonitorAction>)),
        native_answer(ms[3].fnptr, heap, classes, args) == Some((get_class_answer(heap, classes, args), None::<MonitorAction>)),
        native_answer(ms[4].fnptr, heap, classes, args) == Some((notify_all_answer(args).0, Some(notify_all_answer(args).1))),
        native_answer(ms[5].fnptr, heap, classes, args) == Some((wait_answer(args).0, Some(wait_answer(args).1))),
{
    reveal_strlit("registerNatives");
    lemma_ascii_literal("registerNatives");
    assert("registerNatives".spec_bytes() =~= seq![114u8, 101, 103, 105, 115, 116, 101, 114, 78, 97, 116, 105, 118, 101, 115]);
    reveal_strlit("hashCode");
    lemma_ascii_literal("hashCode");
    assert("hashCode".spec_bytes() =~= seq![104u8, 97, 115, 104, 67, 111, 100, 101]);
    reveal_strlit("clone");
    lemma_ascii_literal("clone");
    assert("clone".spec_bytes() =~= seq![99u8, 108, 111, 110, 101]);
    reveal_strlit("getClass");
    lemma_ascii_literal("getClass");
    assert("getClass".spec_bytes() =~= seq![103u8, 101, 116, 67, 108, 97, 115, 115]);
    reveal_strlit("notifyAll");
    lemma_ascii_literal("notifyAll");
    assert("notifyAll".spec_bytes() =~= seq![110u8, 111, 116, 105, 102, 121, 65, 108, 108]);
    reveal_strlit("wait");
    lemma_ascii_literal("wait");
    assert("wait".spec_bytes() =~= seq![119u8, 97, 105, 116]);
    assert(ms[1].name@[0] != ms[3].name@[0]);
    assert forall|i: int, j: int| 0 <= i < j < ms.len() implies ms[i].name@ != ms[j].name@ by {
        if i == 1 && j == 3 {
            assert(ms[i].name@[0] != ms[j].name@[0]);
        } else {
            assert(ms[i].name@.len() != ms[j].name@.len());
        }
    }
    reveal_with_fuel(first_native_from, 7);
    assert forall|k: int|
        0 <= k < ms.len() implies first_native_from(ms, #[trigger] ms[k].name@, ms[k].signature@, 0)
            == Some(k) by {
        assert(forall|i: int| 0 <= i < k ==> ms[i].name@ != ms[k].name@);
    }
}

/// The native method table of `java.lang.Object`.
pub fn get_native_methods() -> (r: Vec<JNINativeMethod>)
    ensures
        is_native_table(r@),
{
    let mut v: Vec<JNINativeMethod> = Vec::new();
    v.push(new_fn("registerNatives", "()V", NativeFn::ObjectRegisterNatives));
    v.push(new_fn("hashCode", "()I", NativeFn::ObjectHashCode));
    v.push(new_fn("clone", "()Ljava/lang/Object;", NativeFn::ObjectClone));
    v.push(new_fn("getClass", "()Ljava/lang/Class;", NativeFn::ObjectGetClass));
    v.push(new_fn("notifyAll", "()V", NativeFn::ObjectNotifyAll));
    v.push(new_fn("wait", "(J)V", NativeFn::ObjectWait));
    v
}

/// What `registerNatives` answers: nothing.
pub open spec fn register_natives_answer() -> JNIResult {
    JNIResult::Ok(None)
}

/// What `hashCode` answers on `args`, given the recorded hashes.
pub open spec fn hash_code_answer(hashes: Seq<Option<i32>>, args: Seq<Oop>) -> JNIResult {
    JNIResult::Ok(Some(Oop::Int(object_hash(hashes, args[0]))))
}

/// What `clone` answers on `args`: the receiver.
pub open spec fn clone_answer(args: Seq<Oop>) -> JNIResult {
    JNIResult::Ok(Some(args[0]))
}

/// What `getClass` answers on `args`.
pub open spec fn get_class_answer(heap: &Heap, classes: &ClassTable, args: Seq<Oop>) -> JNIResult {
    JNIResult::Ok(Some(get_class_of(heap, classes, args[0])))
}

/// What `notifyAll` answers on `args`, with the monitor work it asks for.
pub open spec fn notify_all_answer(args: Seq<Oop>) -> (JNIResult, MonitorAction) {
    (JNIResult::Ok(None), MonitorAction::NotifyAll(ref_of(args[0])))
}

/// What `wait` answers on `args`, with the monitor work it asks for.
pub open spec fn wait_answer(args: Seq<Oop>) -> (JNIResult, MonitorAction) {
    (JNIResult::Ok(None), wait_action(ref_of(args[0]), long_of(args[1])))
}

/// `Object.registerNatives()`: nothing to do.
pub fn jvm_registerNatives(_env: JNIEnv, _args: Vec<Oop>) -> (r: JNIResult)
    ensures
        r == register_natives_answer(),
{
    Ok(None)
}

/// The identity hash of the object at heap index `r`: its address in this
/// model of the heap.
pub open spec fn identity_hash(r: usize) -> i32 {
    r as i32
}

/// What `hashCode` answers for `v`: 0 for `null`, the object's recorded hash
/// once it has one, its identity hash before that.
pub open spec fn object_hash(hashes: Seq<Option<i32>>, v: Oop) -> i32 {
    match v {
        Oop::Ref(r) => match hashes[r as int] {
            Some(h) => h,
            None => identity_hash(r),
        },
        _ => 0,
    }
}

/// The recorded hashes after `hashCode` on `v`: an object's first call
/// records the hash it answered.
pub open spec fn hashes_after(hashes: Seq<Option<i32>>, v: Oop) -> Seq<Option<i32>> {
    match v {
        Oop::Ref(r) => match hashes[r as int] {
            Some(_) => hashes,
            None => hashes.update(r as int, Some(identity_hash(r))),
        },
        _ => hashes,
    }
}

/// `v` is `null` or a reference to an object of `heap`.
pub open spec fn null_or_object(heap: &Heap, v: Oop) -> bool {
    match v {
        Oop::Null => true,
        Oop::Ref(r) => heap.is_object(r),
        _ => false,
    }
}

/// `Object.hashCode()`.
pub fn jvm_hashCode(_env: JNIEnv, args: Vec<Oop>, heap: &mut Heap) -> (r: JNIResult)
    requires
        old(heap).wf(),
        args@.len() >= 1,
        null_or_object(old(heap), args@[0]),
    ensures
        final(heap).wf(),
        final(heap).kinds@ == old(heap).kinds@,
        final(heap).hash_codes@ == hashes_after(old(heap).hash_codes@, args@[0]),
        r == hash_code_answer(old(heap).hash_codes@, args@),
{
    let v = args[0];
    let h = match v {
        Oop::Ref(rf) => {
            match heap.hash_codes[rf] {
                Some(hash) => hash,
                None => {
                    let hash = #[verifier::truncate] (rf as i32);
                    heap.hash_codes.set(rf, Some(hash));
                    hash
                },
            }
        },
        _ => 0,
    };
    Ok(Some(Oop::Int(h)))
}

/// Law: `hashCode` keeps answering the same for an object, and once it has
/// answered, asking again changes nothing.
pub proof fn lemma_hash_code_stable(hashes: Seq<Option<i32>>, v: Oop)
    requires
        v matches Oop::Ref(r) ==> r < hashes.len(),
    ensures
        object_hash(hashes_after(hashes, v), v) == object_hash(hashes, v),
        hashes_after(hashes_after(hashes, v), v) == hashes_after(hashes, v),
{
}

/// `Object.clone()`: the receiver itself.
pub fn jvm_clone(_env: JNIEnv, args: Vec<Oop>) -> (r: JNIResult)
    requires
        args@.len() >= 1,
    ensures
        r == clone_answer(args@),
{
    Ok(Some(args[0]))
}

/// `getClass()` is answered for this object: an instance or an array
/// whose class has its `Class` object, or a `Class` object itself.
pub open spec fn get_class_defined(heap: &Heap, classes: &ClassTable, v: Oop) -> bool {
    match v {
        Oop::Ref(r) => heap.is_object(r) && match heap.kinds@[r as int] {
            RefKind::Inst { class } => class < classes.classes@.len()
                && classes.classes@[class as int].mirror is Some,
            RefKind::Array { class, .. } => class < classes.classes@.len()
                && classes.classes@[class as int].mirror is Some,
            RefKind::Constructor { class, .. } => class < classes.classes@.len()
                && classes.classes@[class as int].mirror is Some,
            RefKind::Mirror { .. } => true,
            RefKind::TypeArray => false,
        },
        _ => false,
    }
}

/// What `getClass()` answers: the `Class` object of the object's class,
/// or, for a `Class` object, that object itself.
pub open spec fn get_class_of(heap: &Heap, classes: &ClassTable, v: Oop) -> Oop {
    match v {
        Oop::Ref(r) => match heap.kinds@[r as int] {
            RefKind::Inst { class } => classes.classes@[class as int].mirror->0,
            RefKind::Array { class, .. } => classes.classes@[class as int].mirror->0,
            RefKind::Constructor { class, .. } => classes.classes@[class as int].mirror->0,
            _ => v,
        },
        _ => v,
    }
}

/// `Object.getClass()`.
pub fn jvm_getClass(_env: JNIEnv, args: Vec<Oop>, heap: &Heap, classes: &ClassTable) -> (r: JNIResult)
    requires
        args@.len() >= 1,
        get_class_defined(heap, classes, args@[0]),
    ensures
        r == get_class_answer(heap, classes, args@),
{
    let v = args[0];
    let rf = match v {
        Oop::Ref(rf) => rf,
        _ => {
            proof {
                assert(false);
            }
            0
        },
    };
    let mirror = match &heap.kinds[rf] {
        RefKind::Inst { class } => get_mirror(classes, *class),
        RefKind::Array { class, .. } => get_mirror(classes, *class),
        RefKind::Constructor { class, .. } => get_mirror(classes, *class),
        RefKind::Mirror { .. } => v,
        RefKind::TypeArray => {
            proof {
                assert(false);
            }
            v
        },
    };
    Ok(Some(mirror))
}

/// The `Class` object of a class that has one.
fn get_mirror(classes: &ClassTable, class: usize) -> (m: Oop)
    requires
        class < classes.classes@.len(),
        classes.classes@[class as int].mirror is Some,
    ensures
        m == classes.classes@[class as int].mirror->0,
{
    match classes.classes[class].mirror {
        Some(m) => m,
        None => {
            proof {
                assert(false);
            }
            Oop::Null
        },
    }
}

/// `Object.notifyAll()`: wakes every thread waiting on the receiver.
pub fn jvm_notifyAll(_env: JNIEnv, args: Vec<Oop>) -> (r: (JNIResult, MonitorAction))
    requires
        args@.len() >= 1,
        args@[0] is Ref,
    ensures
        r == notify_all_answer(args@),
{
    let rf = match args[0] {
        Oop::Ref(rf) => rf,
        _ => {
            proof {
                assert(false);
            }
            0
        },
    };
    (Ok(None), MonitorAction::NotifyAll(rf))
}

/// How `wait(millis)` waits: until notified when `millis` is 0, else with
/// `millis` taken as an unsigned number of milliseconds.
pub open spec fn wait_action(rf: usize, millis: i64) -> MonitorAction {
    if millis == 0 {
        MonitorAction::Wait(rf)
    } else {
        MonitorAction::WaitTimeout(rf, millis as u64)
    }
}

/// `Object.wait(long)`.
pub fn jvm_wait(_env: JNIEnv, args: Vec<Oop>) -> (r: (JNIResult, MonitorAction))
    requires
        args@.len() >= 2,
        args@[0] is Ref,
        args@[1] is Long,
    ensures
        r == wait_answer(args@),
{
    let rf = match args[0] {
        Oop::Ref(rf) => rf,
        _ => {
            proof {
                assert(false);
            }
            0
        },
    };
    let millis = match args[1] {
        Oop::Long(m) => m,
        _ => {
            proof {
                assert(false);
            }
            0
        },
    };
    if millis == 0 {
        (Ok(None), MonitorAction::Wait(rf))
    } else {
        (Ok(None), MonitorAction::WaitTimeout(rf, #[verifier::truncate] (millis as u64)))
    }
}

} // verus!
