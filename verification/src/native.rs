//! What native methods share: their table entries, results and the
//! monitor work they ask of the machine.
use vstd::prelude::*;

use crate::invoke::{InvokePlan, JavaCall, JavaThread};
use crate::java_lang_object::{
    clone_answer, get_class_answer, get_class_defined, hash_code_answer, hashes_after,
    jvm_clone, jvm_getClass, jvm_hashCode, jvm_notifyAll, jvm_registerNatives, jvm_wait,
    notify_all_answer, null_or_object, register_natives_answer, wait_answer,
};
use crate::oop::{bytes_eq, ClassTable, Heap, Oop, RefKind};
use crate::sun_reflect_native_constructor_accessor_impl::{
    can_new_instance0, jvm_newInstance0, new_instance_can_run, new_instance_post,
};
use vstd::string::StringSliceAdditionalSpecFns;

verus! {

/// The class on whose behalf a native method runs.
#[derive(Clone, Copy, PartialEq, Eq, Structural, Debug)]
pub struct JNIEnv {
    pub class: usize,
}

/// The Java exceptions that the invocation machinery raises itself.
#[derive(Clone, Copy, PartialEq, Eq, Structural, Debug)]
pub enum JavaException {
    /// `java.lang.NullPointerException`
    NullPointer,
    /// `java.lang.StackOverflowError`
    StackOverflow,
}

/// What a native method returns: its value, if any, or the exception it
/// raised.
pub type JNIResult = Result<Option<Oop>, JavaException>;

/// The native functions of this library, as a table entry names them.
#[derive(Clone, Copy, PartialEq, Eq, Structural, Debug)]
pub enum NativeFn {
    ObjectRegisterNatives,
    ObjectHashCode,
    ObjectClone,
    ObjectGetClass,
    ObjectNotifyAll,
    ObjectWait,
    ConstructorNewInstance0,
}

/// An entry of a class's native method table.
pub struct JNINativeMethod {
    pub name: Vec<u8>,
    pub signature: Vec<u8>,
    pub fnptr: NativeFn,
}

/// The entry `m` binds `name` with descriptor `signature` to `f`.
pub open spec fn binds(m: JNINativeMethod, name: &str, signature: &str, f: NativeFn) -> bool {
    &&& m.name@ == name.spec_bytes()
    &&& m.signature@ == signature.spec_bytes()
    &&& m.fnptr == f
}

/// The bytes of an ASCII string are its characters.
pub proof fn lemma_ascii_literal(s: &str)
    requires
        vstd::utf8::is_ascii_chars(s@),
    ensures
        s.spec_bytes() =~= Seq::new(s@.len(), |i: int| s@[i] as u8),
{
    vstd::utf8::is_ascii_chars_encode_utf8(s@);
}

/// Makes a table entry.
pub fn new_fn(name: &str, signature: &str, f: NativeFn) -> (m: JNINativeMethod)
    ensures
        binds(m, name, signature, f),
{
    JNINativeMethod {
        name: vstd::slice::slice_to_vec(name.as_bytes()),
        signature: vstd::slice::slice_to_vec(signature.as_bytes()),
        fnptr: f,
    }
}

/// The object whose monitor a synchronized method holds: a class's for a
/// static method, the receiver's otherwise.
#[derive(Clone, Copy, PartialEq, Eq, Structural, Debug, Hash)]
pub enum MonitorTarget {
    Class(usize),
    Object(usize),
}

/// Monitor work that a native method asks the machine to do after it
/// returns.
#[derive(Clone, Copy, PartialEq, Eq, Structural, Debug)]
pub enum MonitorAction {
    /// Wake every thread waiting on the object's monitor.
    NotifyAll(usize),
    /// Wait on the object's monitor until notified.
    Wait(usize),
    /// Wait on the object's monitor until notified or until the given number
    /// of milliseconds have passed.
    WaitTimeout(usize, u64),
}

/// The native methods that a class registers.
pub struct NativeClass {
    /// The class's internal name, such as `java/lang/Object`.
    pub class_name: Vec<u8>,
    pub methods: Vec<JNINativeMethod>,
}

/// The first class entry, from `k` on, registered under `package`.
pub open spec fn first_class_from(reg: Seq<NativeClass>, package: Seq<u8>, k: int) -> Option<int>
    decreases reg.len() - k,
{
    if k < 0 || k >= reg.len() {
        None
    } else if reg[k].class_name@ == package {
        Some(k)
    } else {
        first_class_from(reg, package, k + 1)
    }
}

/// The first table entry, from `k` on, for this name and descriptor.
pub open spec fn first_native_from(ms: Seq<JNINativeMethod>, name: Seq<u8>, desc: Seq<u8>, k: int) -> Option<int>
    decreases ms.len() - k,
{
    if k < 0 || k >= ms.len() {
        None
    } else if ms[k].name@ == name && ms[k].signature@ == desc {
        Some(k)
    } else {
        first_native_from(ms, name, desc, k + 1)
    }
}

/// The native function registered for this class, name and descriptor.
pub open spec fn spec_find_symbol(reg: Seq<NativeClass>, package: Seq<u8>, name: Seq<u8>, desc: Seq<u8>) -> Option<NativeFn> {
    match first_class_from(reg, package, 0) {
        Some(c) => match first_native_from(reg[c].methods@, name, desc, 0) {
            Some(k) => Some(reg[c].methods@[k].fnptr),
            None => None,
        },
        None => None,
    }
}

/// Looks up the native function registered for a method.
pub fn find_symbol(reg: &Vec<NativeClass>, package: &[u8], name: &[u8], desc: &[u8]) -> (r: Option<NativeFn>)
    ensures
        r == spec_find_symbol(reg@, package@, name@, desc@),
{
    let mut c: usize = 0;
    while c < reg.len()
        invariant
            c <= reg@.len(),
            first_class_from(reg@, package@, 0) == first_class_from(reg@, package@, c as int),
        decreases reg.len() - c,
    {
        if bytes_eq(reg[c].class_name.as_slice(), package) {
            let ms = &reg[c].methods;
            let mut k: usize = 0;
            while k < ms.len()
                invariant
                    c < reg@.len(),
                    first_class_from(reg@, package@, 0) == Some(c as int),
                    ms@ == reg@[c as int].methods@,
                    k <= ms@.len(),
                    first_native_from(ms@, name@, desc@, 0) == first_native_from(ms@, name@, desc@, k as int),
                decreases ms.len() - k,
            {
                if bytes_eq(ms[k].name.as_slice(), name) && bytes_eq(ms[k].signature.as_slice(), desc) {
                    return Some(ms[k].fnptr);
                }
                k = k + 1;
            }
            return None;
        }
        c = c + 1;
    }
    None
}

/// Makes a registry entry.
fn native_class(class_name: &str, methods: Vec<JNINativeMethod>) -> (r: NativeClass)
    ensures
        r.class_name@ == class_name.spec_bytes(),
        r.methods@ == methods@,
{
    NativeClass { class_name: vstd::slice::slice_to_vec(class_name.as_bytes()), methods }
}

/// The native methods of this library, by class.
pub fn init() -> (r: Vec<NativeClass>)
    ensures
        r@.len() == 2,
        r@[0].class_name@ == "java/lang/Object".spec_bytes(),
        crate::java_lang_object::is_native_table(r@[0].methods@),
        r@[1].class_name@ == "sun/reflect/NativeConstructorAccessorImpl".spec_bytes(),
        crate::sun_reflect_native_constructor_accessor_impl::is_native_table(r@[1].methods@),
{
    let mut r: Vec<NativeClass> = Vec::new();
    r.push(native_class("java/lang/Object", crate::java_lang_object::get_native_methods()));
    r.push(
        native_class(
            "sun/reflect/NativeConstructorAccessorImpl",
            crate::sun_reflect_native_constructor_accessor_impl::get_native_methods(),
        ),
    );
    r
}

/// What a native function asks of the machine besides its result.
pub enum NativeEffect {
    Nothing,
    /// Monitor work to do.
    Monitor(MonitorAction),
    /// A call of Java code that it started (a constructor, for
    /// `newInstance0`): its plan is to be carried out and the call ended
    /// with `JavaCall::finish_ctor`.
    Construct(JavaCall, InvokePlan),
}

/// What the native functions of `java.lang.Object` answer on `args`, and
/// the monitor work they ask for; each as the `jvm_` function of its name
/// states. `newInstance0` has no answer here: it changes the heap and starts
/// a call, as [`new_instance_post`] states.
pub open spec fn native_answer(f: NativeFn, heap: &Heap, classes: &ClassTable, args: Seq<Oop>) -> Option<(JNIResult, Option<MonitorAction>)> {
    match f {
        NativeFn::ObjectRegisterNatives => Some((register_natives_answer(), None)),
        NativeFn::ObjectHashCode => Some((hash_code_answer(heap.hash_codes@, args), None)),
        NativeFn::ObjectClone => Some((clone_answer(args), None)),
        NativeFn::ObjectGetClass => Some((get_class_answer(heap, classes, args), None)),
        NativeFn::ObjectNotifyAll => Some((notify_all_answer(args).0, Some(notify_all_answer(args).1))),
        NativeFn::ObjectWait => Some((wait_answer(args).0, Some(wait_answer(args).1))),
        NativeFn::ConstructorNewInstance0 => None,
    }
}

/// The effect that stands for the monitor work `a`.
pub open spec fn monitor_effect(a: Option<MonitorAction>) -> NativeEffect {
    match a {
        Some(x) => NativeEffect::Monitor(x),
        None => NativeEffect::Nothing,
    }
}

/// `f` can run on `args` on a thread that holds `depth` frames.
pub open spec fn native_can_run(
    f: NativeFn,
    heap: &Heap,
    classes: &ClassTable,
    natives: Seq<NativeClass>,
    depth: int,
    args: Seq<Oop>,
) -> bool {
    match f {
        NativeFn::ObjectRegisterNatives => true,
        NativeFn::ObjectHashCode => args.len() >= 1 && null_or_object(heap, args[0]),
        NativeFn::ObjectClone => args.len() >= 1,
        NativeFn::ObjectGetClass => args.len() >= 1 && get_class_defined(heap, classes, args[0]),
        NativeFn::ObjectNotifyAll => args.len() >= 1 && args[0] is Ref,
        NativeFn::ObjectWait => args.len() >= 2 && args[0] is Ref && args[1] is Long,
        NativeFn::ConstructorNewInstance0 => new_instance_can_run(heap, classes, natives, depth, args),
    }
}

/// Whether [`call_native`] may run `f` on `args` on `thread`.
pub fn can_call_native(
    f: NativeFn,
    heap: &Heap,
    classes: &ClassTable,
    natives: &Vec<NativeClass>,
    thread: &JavaThread,
    args: &Vec<Oop>,
) -> (r: bool)
    ensures
        r == (heap.wf() && native_can_run(f, heap, classes, natives@, thread.frames@.len() as int, args@)),
{
    if !heap.check_wf() {
        return false;
    }
    match f {
        NativeFn::ObjectRegisterNatives => true,
        NativeFn::ObjectHashCode => args.len() >= 1 && match args[0] {
            Oop::Null => true,
            Oop::Ref(r) => r < heap.kinds.len(),
            _ => false,
        },
        NativeFn::ObjectClone => args.len() >= 1,
        NativeFn::ObjectGetClass => args.len() >= 1 && match args[0] {
            Oop::Ref(r) => r < heap.kinds.len() && match &heap.kinds[r] {
                RefKind::Inst { class } => *class < classes.classes.len()
                    && classes.classes[*class].mirror.is_some(),
                RefKind::Array { class, .. } => *class < classes.classes.len()
                    && classes.classes[*class].mirror.is_some(),
                RefKind::Constructor { class, .. } => *class < classes.classes.len()
                    && classes.classes[*class].mirror.is_some(),
                RefKind::Mirror { .. } => true,
                RefKind::TypeArray => false,
            },
            _ => false,
        },
        NativeFn::ObjectNotifyAll => args.len() >= 1 && matches!(args[0], Oop::Ref(_)),
        NativeFn::ObjectWait => args.len() >= 2 && matches!(args[0], Oop::Ref(_)) && matches!(args[1], Oop::Long(_)),
        NativeFn::ConstructorNewInstance0 => can_new_instance0(heap, classes, natives, thread, args),
    }
}

/// Runs the native function `f` on `args`: its result, and what it asks of
/// the machine. Each function is run as the `jvm_` function of its name
/// states.
pub fn call_native(
    f: NativeFn,
    env: JNIEnv,
    args: Vec<Oop>,
    heap: &mut Heap,
    classes: &ClassTable,
    natives: &Vec<NativeClass>,
    thread: &mut JavaThread,
) -> (r: (JNIResult, NativeEffect))
    requires
        old(heap).wf(),
        native_can_run(f, old(heap), classes, natives@, old(thread).frames@.len() as int, args@),
    ensures
        final(heap).wf(),
        f == NativeFn::ConstructorNewInstance0 ==> (r.1 matches NativeEffect::Construct(call, plan)
            && new_instance_post(
            old(heap),
            final(heap),
            classes,
            natives@,
            args@,
            *old(thread),
            *final(thread),
            r.0,
            call,
            plan,
        )),
        f != NativeFn::ConstructorNewInstance0 ==> {
            &&& *final(thread) == *old(thread)
            &&& final(heap).kinds@ == old(heap).kinds@
            &&& final(heap).hash_codes@ == if f == NativeFn::ObjectHashCode {
                hashes_after(old(heap).hash_codes@, args@[0])
            } else {
                old(heap).hash_codes@
            }
            &&& native_answer(f, old(heap), classes, args@) is Some
            &&& {
                let a = native_answer(f, old(heap), classes, args@)->0;
                r.0 == a.0 && r.1 == monitor_effect(a.1)
            }
        },
{
    match f {
        NativeFn::ObjectRegisterNatives => (jvm_registerNatives(env, args), NativeEffect::Nothing),
        NativeFn::ObjectHashCode => (jvm_hashCode(env, args, heap), NativeEffect::Nothing),
        NativeFn::ObjectClone => (jvm_clone(env, args), NativeEffect::Nothing),
        NativeFn::ObjectGetClass => (jvm_getClass(env, args, heap, classes), NativeEffect::Nothing),
        NativeFn::ObjectNotifyAll => {
            let (res, action) = jvm_notifyAll(env, args);
            (res, NativeEffect::Monitor(action))
        },
        NativeFn::ObjectWait => {
            let (res, action) = jvm_wait(env, args);
            (res, NativeEffect::Monitor(action))
        },
        NativeFn::ConstructorNewInstance0 => {
            let (res, call, plan) = jvm_newInstance0(env, args, heap, classes, natives, thread);
            (res, NativeEffect::Construct(call, plan))
        },
    }
}

} // verus!
