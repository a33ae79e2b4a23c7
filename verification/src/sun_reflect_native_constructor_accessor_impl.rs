//! The native method of `sun.reflect.NativeConstructorAccessorImpl`.
#![allow(non_snake_case)]

use vstd::prelude::*;

use crate::invoke::{
    can_start, ctor_of, dispatched_on, has_valid_desc, init_name, invoke_ctor, invoke_post,
    locals_fit, method_sig, receiver_class, resolve_again_for, resolved_method, InvokePlan,
    JavaCall, JavaThread, THREAD_MAX_STACK_FRAMES,
};
use crate::signature::MethodSignature;
use crate::native::{
    binds, find_symbol, lemma_ascii_literal, new_fn, JNIEnv, JNINativeMethod, JNIResult, NativeClass, NativeFn,
};
use crate::signature::{field_end, name_end, params_from, spec_parse_method};
use vstd::string::StringSliceAdditionalSpecFns;
use crate::oop::{this_class_method, ClassTable, Heap, MethodRef, Oop, RefKind};

verus! {

/// `ms` is the native method table of
/// `sun.reflect.NativeConstructorAccessorImpl`.
pub open spec fn is_native_table(ms: Seq<JNINativeMethod>) -> bool {
    &&& ms.len() == 1
    &&& binds(
        ms[0],
        "newInstance0",
        "(Ljava/lang/reflect/Constructor;[Ljava/lang/Object;)Ljava/lang/Object;",
        NativeFn::ConstructorNewInstance0,
    )
}

/// Law: the table's descriptor is a well-formed method descriptor.
pub proof fn lemma_native_table_descriptors(ms: Seq<JNINativeMethod>)
    requires
        is_native_table(ms),
    ensures
        forall|k: int| 0 <= k < ms.len() ==> spec_parse_method(#[trigger] ms[k].signature@) is Some,
{
    reveal_strlit("(Ljava/lang/reflect/Constructor;[Ljava/lang/Object;)Ljava/lang/Object;");
    lemma_ascii_literal("(Ljava/lang/reflect/Constructor;[Ljava/lang/Object;)Ljava/lang/Object;");
    assert("(Ljava/lang/reflect/Constructor;[Ljava/lang/Object;)Ljava/lang/Object;".spec_bytes() =~= seq![40u8, 76, 106, 97, 118, 97, 47, 108, 97, 110, 103, 47, 114, 101, 102, 108, 101, 99, 116, 47, 67, 111, 110, 115, 116, 114, 117, 99, 116, 111, 114, 59, 91, 76, 106, 97, 118, 97, 47, 108, 97, 110, 103, 47, 79, 98, 106, 101, 99, 116, 59, 41, 76, 106, 97, 118, 97, 47, 108, 97, 110, 103, 47, 79, 98, 106, 101, 99, 116, 59]);
    reveal_with_fuel(name_end, 40);
    reveal_with_fuel(params_from, 3);
    reveal_with_fuel(field_end, 2);
    assert(spec_parse_method(ms[0].signature@) is Some);
}

/// The native method table of `sun.reflect.NativeConstructorAccessorImpl`.
pub fn get_native_methods() -> (r: Vec<JNINativeMethod>)
    ensures
        is_native_table(r@),
{
    let mut v: Vec<JNINativeMethod> = Vec::new();
    v.push(
        new_fn(
            "newInstance0",
            "(Ljava/lang/reflect/Constructor;[Ljava/lang/Object;)Ljava/lang/Object;",
            NativeFn::ConstructorNewInstance0,
        ),
    );
    v
}

/// The class that `clazz`, a `Class` object, stands for.
pub open spec fn mirror_target(heap: &Heap, clazz: Oop) -> Option<usize> {
    match clazz {
        Oop::Ref(r) => if heap.is_object(r) {
            match heap.kinds@[r as int] {
                RefKind::Mirror { target } => target,
                _ => None,
            }
        } else {
            None
        },
        _ => None,
    }
}

/// `arguments` is `null` or a reference array on the heap.
pub open spec fn is_argument_array(heap: &Heap, arguments: Oop) -> bool {
    match arguments {
        Oop::Null => true,
        Oop::Ref(r) => heap.is_object(r) && heap.kinds@[r as int] is Array,
        _ => false,
    }
}

/// The constructor arguments held in `arguments`: none for `null`, the
/// array's elements otherwise.
pub open spec fn argument_values(heap: &Heap, arguments: Oop) -> Seq<Oop> {
    match arguments {
        Oop::Ref(r) => match heap.kinds@[r as int] {
            RefKind::Array { elements, .. } => elements@,
            _ => Seq::empty(),
        },
        _ => Seq::empty(),
    }
}

/// Copies out the constructor arguments that `arguments` holds.
fn collect_arguments(heap: &Heap, arguments: Oop) -> (r: Vec<Oop>)
    requires
        is_argument_array(heap, arguments),
    ensures
        r@ == argument_values(heap, arguments),
{
    let mut out: Vec<Oop> = Vec::new();
    match arguments {
        Oop::Ref(r) => match &heap.kinds[r] {
            RefKind::Array { elements, .. } => {
                let mut i: usize = 0;
                while i < elements.len()
                    invariant
                        i <= elements@.len(),
                        out@ == elements@.take(i as int),
                    decreases elements.len() - i,
                {
                    out.push(elements[i]);
                    i = i + 1;
                    assert(out@ =~= elements@.take(i as int));
                }
                assert(elements@.take(elements@.len() as int) =~= elements@);
            },
            _ => {},
        },
        _ => {},
    }
    out
}

/// The `clazz` and `signature` fields of the `Constructor` object that `v`
/// refers to.
pub open spec fn ctor_fields(heap: &Heap, v: Oop) -> Option<(Oop, Seq<u8>)> {
    match v {
        Oop::Ref(r) => if heap.is_object(r) {
            match heap.kinds@[r as int] {
                RefKind::Constructor { clazz, signature, .. } => Some((clazz, signature@)),
                _ => None,
            }
        } else {
            None
        },
        _ => None,
    }
}

/// The class that the constructor object `args[0]` constructs.
pub open spec fn new_instance_class(heap: &Heap, args: Seq<Oop>) -> usize {
    let fields = ctor_fields(heap, args[0])->0;
    mirror_target(heap, fields.0)->0
}

/// The constructor that `newInstance0` calls.
pub open spec fn new_instance_ctor(heap: &Heap, classes: &ClassTable, args: Seq<Oop>) -> MethodRef {
    let fields = ctor_fields(heap, args[0])->0;
    ctor_of(classes, new_instance_class(heap, args), fields.1)
}

/// The arguments of that call: the new object, which takes the next heap
/// index, then the array's elements.
pub open spec fn new_instance_args(heap: &Heap, args: Seq<Oop>) -> Seq<Oop> {
    seq![Oop::Ref(heap.kinds@.len() as usize)] + argument_values(heap, args[1])
}

/// `newInstance0` can run on `args` on a thread with `depth` frames:
/// `args[0]` is a `Constructor` object whose `clazz` names a loaded class
/// that declares a constructor with its `signature`, `args[1]` is `null` or
/// a reference array, and the call of that constructor can start.
pub open spec fn new_instance_can_run(
    heap: &Heap,
    classes: &ClassTable,
    natives: Seq<NativeClass>,
    depth: int,
    args: Seq<Oop>,
) -> bool {
    &&& classes.wf()
    &&& args.len() >= 2
    &&& ctor_fields(heap, args[0]) matches Some((clazz, signature)) && (mirror_target(
        heap,
        clazz,
    ) matches Some(c) && c < classes.classes@.len() && (this_class_method(
        classes,
        c,
        init_name(),
        signature,
    ) matches Some(m) && has_valid_desc(classes, m)))
    &&& is_argument_array(heap, args[1])
    &&& can_start(
        natives,
        classes,
        dispatched_on(classes, new_instance_class(heap, args), new_instance_ctor(heap, classes, args), false),
        new_instance_args(heap, args),
        depth,
    )
}

/// What `newInstance0` on `args` does (`h0`, `t0` before, `h1`, `t1` after):
/// a new instance of the constructor's class takes the next heap index
/// and is the answer, and the call of the constructor on it and the
/// array's elements is started with dispatch not suppressed.
pub open spec fn new_instance_post(
    h0: &Heap,
    h1: &Heap,
    classes: &ClassTable,
    natives: Seq<NativeClass>,
    args: Seq<Oop>,
    t0: JavaThread,
    t1: JavaThread,
    answer: JNIResult,
    call: JavaCall,
    plan: InvokePlan,
) -> bool {
    &&& h1.wf()
    &&& h1.kinds@ == h0.kinds@.push(RefKind::Inst { class: new_instance_class(h0, args) })
    &&& h1.hash_codes@ == h0.hash_codes@.push(None)
    &&& answer == JNIResult::Ok(Some(Oop::Ref(h0.kinds@.len() as usize)))
    &&& invoke_post(
        classes,
        h1,
        natives,
        new_instance_ctor(h0, classes, args),
        new_instance_args(h0, args),
        false,
        call,
        t0,
        t1,
        plan,
    )
    &&& call.return_type@ == method_sig(classes, new_instance_ctor(h0, classes, args)).retype
}

/// Whether [`jvm_newInstance0`] may run on `args` on `thread`.
pub fn can_new_instance0(
    heap: &Heap,
    classes: &ClassTable,
    natives: &Vec<NativeClass>,
    thread: &JavaThread,
    args: &Vec<Oop>,
) -> (r: bool)
    requires
        heap.wf(),
    ensures
        r == new_instance_can_run(heap, classes, natives@, thread.frames@.len() as int, args@),
{
    if !classes.check_wf() || args.len() < 2 {
        return false;
    }
    let (clazz, signature) = match args[0] {
        Oop::Ref(rf) => {
            if rf >= heap.kinds.len() {
                return false;
            }
            match &heap.kinds[rf] {
                RefKind::Constructor { clazz, signature, .. } => (*clazz, signature.as_slice()),
                _ => {
                    return false;
                },
            }
        },
        _ => {
            return false;
        },
    };
    let c = match clazz {
        Oop::Ref(rf) => {
            if rf >= heap.kinds.len() {
                return false;
            }
            match &heap.kinds[rf] {
                RefKind::Mirror { target: Some(c) } => *c,
                _ => {
                    return false;
                },
            }
        },
        _ => {
            return false;
        },
    };
    if c >= classes.classes.len() {
        return false;
    }
    let m = match classes.get_this_class_method(c, "<init>".as_bytes(), signature) {
        Some(m) => m,
        None => {
            return false;
        },
    };
    let info = classes.get_method(m);
    if MethodSignature::parse(info.desc.as_slice()).is_none() {
        return false;
    }
    let is_array = match args[1] {
        Oop::Null => true,
        Oop::Ref(r) => r < heap.kinds.len() && matches!(heap.kinds[r], RefKind::Array { .. }),
        _ => false,
    };
    if !is_array {
        return false;
    }
    let target = if resolve_again_for(info, false) {
        match classes.get_virtual_method(c, info.name.as_slice(), info.desc.as_slice()) {
            Some(found) => found,
            None => m,
        }
    } else {
        m
    };
    let mut call_args = collect_arguments(heap, args[1]);
    call_args.insert(0, Oop::Ref(heap.kinds.len()));
    assert(call_args@ =~= new_instance_args(heap, args@));
    let t = classes.get_method(target);
    if t.is_native() {
        let package = classes.classes[target.class].name.as_slice();
        find_symbol(natives, package, t.name.as_slice(), t.desc.as_slice()).is_some()
    } else {
        thread.frames.len() >= THREAD_MAX_STACK_FRAMES || locals_fit(&call_args, t.max_locals)
    }
}

/// `NativeConstructorAccessorImpl.newInstance0(Constructor, Object[])`:
/// makes a new instance of the class that the constructor's `clazz` field
/// names, and starts the call of its constructor with the descriptor held
/// in the constructor's `signature` field, the new object first and the
/// array's elements after it, as [`invoke_ctor`] does. Answers the new
/// object, with the started call and its plan.
pub fn jvm_newInstance0(
    _env: JNIEnv,
    args: Vec<Oop>,
    heap: &mut Heap,
    classes: &ClassTable,
    natives: &Vec<NativeClass>,
    thread: &mut JavaThread,
) -> (r: (JNIResult, JavaCall, InvokePlan))
    requires
        old(heap).wf(),
        new_instance_can_run(old(heap), classes, natives@, old(thread).frames@.len() as int, args@),
    ensures
        new_instance_post(
            old(heap),
            final(heap),
            classes,
            natives@,
            args@,
            *old(thread),
            *final(thread),
            r.0,
            r.1,
            r.2,
        ),
{
    let (clazz, signature) = match args[0] {
        Oop::Ref(rf) => match &heap.kinds[rf] {
            RefKind::Constructor { clazz, signature, .. } => (
                *clazz,
                vstd::slice::slice_to_vec(signature.as_slice()),
            ),
            _ => {
                proof {
                    assert(false);
                }
                (Oop::Null, Vec::new())
            },
        },
        _ => {
            proof {
                assert(false);
            }
            (Oop::Null, Vec::new())
        },
    };
    let target_cls = match clazz {
        Oop::Ref(rf) => match &heap.kinds[rf] {
            RefKind::Mirror { target: Some(c) } => *c,
            _ => {
                proof {
                    assert(false);
                }
                0
            },
        },
        _ => {
            proof {
                assert(false);
            }
            0
        },
    };
    let mut ctor_args = collect_arguments(heap, args[1]);
    let ghost values = ctor_args@;
    let ghost old_heap = *heap;
    let n = heap.kinds.len();
    let oop = heap.allocate(RefKind::Inst { class: target_cls });
    ctor_args.insert(0, oop);
    assert(ctor_args@ =~= seq![oop] + values);
    proof {
        let m = ctor_of(classes, target_cls, signature@);
        assert(oop == Oop::Ref(n));
        assert(heap.kinds@[n as int] == RefKind::Inst { class: target_cls });
        assert(receiver_class(heap, oop) == Some(target_cls));
        assert(resolved_method(classes, heap, m, ctor_args@, false) == dispatched_on(
            classes,
            target_cls,
            m,
            false,
        ));
    }
    let (call, plan) = invoke_ctor(classes, target_cls, signature.as_slice(), ctor_args, heap, natives, thread);
    (Ok(Some(oop)), call, plan)
}

} // verus!
