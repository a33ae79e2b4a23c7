//! Calling a method: taking its arguments off the caller's operand stack,
//! choosing the method that virtual dispatch selects, laying out its frame,
//! and handing its return value back to the caller.
use vstd::prelude::*;

use crate::native::{
    find_symbol, spec_find_symbol, JNIEnv, JNIResult, JavaException, MonitorTarget, NativeClass,
    NativeFn,
};
use crate::oop::{
    has_flag, has_type, ref_of, stack_image, virtual_method, ClassTable, Heap, MethodRef, Oop,
    RefKind, Slot, Stack, ACC_ABSTRACT, ACC_FINAL, ACC_PROTECTED, ACC_PUBLIC, ACC_STATIC,
    ACC_NATIVE, ACC_SYNCHRONIZED,
};
use vstd::string::StringSliceAdditionalSpecFns;
use crate::signature::{spec_parse_method, MethodSignature, SigView, SignatureType};

verus! {

/// The most frames a thread may hold.
pub const THREAD_MAX_STACK_FRAMES: usize = 512;

/// An activation of a method.
pub struct Frame {
    pub mir: MethodRef,
    /// Its depth on the thread, counting from 1.
    pub frame_id: usize,
    /// Its local variables; a `long` or a `double` takes two.
    pub locals: Vec<Slot>,
    /// Its operand stack.
    pub stack: Stack,
    /// The value it returned, once it has.
    pub return_v: Option<Oop>,
}

/// The invocation state of a Java thread.
pub struct JavaThread {
    pub frames: Vec<Frame>,
    /// The exception that is being thrown, if any.
    pub ex: Option<JavaException>,
}

/// A call that is about to be made.
pub struct JavaCall {
    pub mir: MethodRef,
    /// The receiver first for an instance method, then the arguments.
    pub args: Vec<Oop>,
    pub return_type: SignatureType,
}

impl Clone for SignatureType {
    fn clone(&self) -> (r: SignatureType)
        ensures
            r@ == self@,
    {
        match self {
            SignatureType::Byte => SignatureType::Byte,
            SignatureType::Char => SignatureType::Char,
            SignatureType::Int => SignatureType::Int,
            SignatureType::Double => SignatureType::Double,
            SignatureType::Float => SignatureType::Float,
            SignatureType::Long => SignatureType::Long,
            SignatureType::Object(d) => SignatureType::Object(d.clone()),
            SignatureType::Short => SignatureType::Short,
            SignatureType::Boolean => SignatureType::Boolean,
            SignatureType::Array(d) => SignatureType::Array(d.clone()),
            SignatureType::Void => SignatureType::Void,
        }
    }
}

/// The signature of the method that `mir` names.
pub open spec fn method_sig(classes: &ClassTable, mir: MethodRef) -> crate::signature::MethodSigView {
    spec_parse_method(classes.method(mir).desc@).unwrap()
}

/// The method's descriptor is a well-formed method descriptor.
pub open spec fn has_valid_desc(classes: &ClassTable, mir: MethodRef) -> bool {
    classes.is_method(mir) && spec_parse_method(classes.method(mir).desc@) is Some
}

/// Takes the value of type `t` off the top of stack `st`.
pub open spec fn pop_value(st: Seq<Slot>, t: SigView) -> Option<(Seq<Slot>, Oop)> {
    match t {
        SigView::Byte | SigView::Boolean | SigView::Int | SigView::Char | SigView::Short => {
            if st.len() >= 1 {
                match st.last() {
                    Slot::I32(x) => Some((st.drop_last(), Oop::Int(x))),
                    _ => None,
                }
            } else {
                None
            }
        },
        SigView::Float => {
            if st.len() >= 1 {
                match st.last() {
                    Slot::F32(x) => Some((st.drop_last(), Oop::Float(x))),
                    _ => None,
                }
            } else {
                None
            }
        },
        SigView::Long => {
            if st.len() >= 2 && st.last() is Nop {
                match st[st.len() - 2] {
                    Slot::I64(x) => Some((st.drop_last().drop_last(), Oop::Long(x))),
                    _ => None,
                }
            } else {
                None
            }
        },
        SigView::Double => {
            if st.len() >= 2 && st.last() is Nop {
                match st[st.len() - 2] {
                    Slot::F64(x) => Some((st.drop_last().drop_last(), Oop::Double(x))),
                    _ => None,
                }
            } else {
                None
            }
        },
        SigView::Object(_) | SigView::Array(_) => {
            if st.len() >= 1 {
                match st.last() {
                    Slot::Ref(v) => Some((st.drop_last(), v)),
                    _ => None,
                }
            } else {
                None
            }
        },
        SigView::Void => None,
    }
}

/// Takes the arguments of types `ts` off stack `st`, the last one first:
/// the stack that is left and the arguments in order.
pub open spec fn pop_args(st: Seq<Slot>, ts: Seq<SigView>) -> Option<(Seq<Slot>, Seq<Oop>)>
    decreases ts.len(),
{
    if ts.len() == 0 {
        Some((st, Seq::empty()))
    } else {
        match pop_value(st, ts.last()) {
            Some((st2, v)) => match pop_args(st2, ts.drop_last()) {
                Some((st3, vs)) => Some((st3, vs.push(v))),
                None => None,
            },
            None => None,
        }
    }
}

/// The slots that the values `vs` of types `ts`, pushed in order, occupy.
pub open spec fn stack_images(ts: Seq<SigView>, vs: Seq<Oop>) -> Seq<Slot>
    decreases ts.len(),
{
    if ts.len() == 0 || vs.len() == 0 {
        Seq::empty()
    } else {
        stack_images(ts.drop_last(), vs.drop_last()) + stack_image(ts.last(), vs.last())
    }
}

/// `s` in reverse order.
pub open spec fn reversed(s: Seq<Oop>) -> Seq<Oop> {
    Seq::new(s.len(), |i: int| s[s.len() - 1 - i])
}

/// Appends the popped tail to what the rest of the popping gives.
pub open spec fn then_values(
    r: Option<(Seq<Slot>, Seq<Oop>)>,
    tail: Seq<Oop>,
) -> Option<(Seq<Slot>, Seq<Oop>)> {
    match r {
        Some((st, vs)) => Some((st, vs + tail)),
        None => None,
    }
}

/// Pops one value of type `t`.
fn pop_typed(area: &mut Stack, t: &SignatureType) -> (v: Oop)
    requires
        pop_value(old(area)@, t@) is Some,
    ensures
        pop_value(old(area)@, t@) == Some((final(area)@, v)),
{
    match t {
        SignatureType::Byte | SignatureType::Boolean | SignatureType::Int | SignatureType::Char
        | SignatureType::Short => Oop::Int(area.pop_int()),
        SignatureType::Long => Oop::Long(area.pop_long()),
        SignatureType::Float => Oop::Float(area.pop_float()),
        SignatureType::Double => Oop::Double(area.pop_double()),
        SignatureType::Object(_) | SignatureType::Array(_) => area.pop_ref(),
        SignatureType::Void => {
            proof {
                assert(false);
            }
            Oop::Null
        },
    }
}

/// Pops the arguments of a call with signature `sig` off the caller's
/// operand stack, the last argument first, and returns them in the order
/// they were popped.
pub fn build_method_args(area: &mut Stack, sig: &MethodSignature) -> (r: Vec<Oop>)
    requires
        pop_args(old(area)@, sig@.args) is Some,
    ensures
        pop_args(old(area)@, sig@.args) == Some((final(area)@, reversed(r@))),
{
    let mut res: Vec<Oop> = Vec::new();
    let mut k = sig.args.len();
    let ghost st0 = area@;
    let ghost ts = sig@.args;
    assert(ts.take(k as int) =~= ts);
    assert(reversed(res@) =~= Seq::<Oop>::empty());
    assert(pop_args(st0, ts) == then_values(pop_args(area@, ts.take(k as int)), reversed(res@))) by {
        let p = pop_args(st0, ts).unwrap();
        assert(p.1 + Seq::<Oop>::empty() =~= p.1);
    }
    while k > 0
        invariant
            k <= sig.args@.len(),
            ts == sig@.args,
            pop_args(st0, ts) is Some,
            pop_args(st0, ts) == then_values(pop_args(area@, ts.take(k as int)), reversed(res@)),
        decreases k,
    {
        let ghost pre = ts.take(k as int);
        assert(pre.last() == sig.args@[k - 1]@);
        assert(pre.drop_last() =~= ts.take(k - 1));
        let ghost rest_before = res@;
        let v = pop_typed(area, &sig.args[k - 1]);
        res.push(v);
        proof {
            assert(reversed(res@) =~= seq![v] + reversed(rest_before));
            match pop_args(area@, ts.take(k - 1)) {
                Some((s3, vs)) => {
                    assert(vs.push(v) + reversed(rest_before) =~= vs + (seq![v] + reversed(rest_before)));
                },
                None => {},
            }
        }
        k = k - 1;
    }
    proof {
        assert(ts.take(0) =~= Seq::<SigView>::empty());
        assert(Seq::<Oop>::empty() + reversed(res@) =~= reversed(res@));
    }
    res
}

/// Law: the value a callee returns onto the caller's stack is the value
/// the caller then pops as that type, and the stack below is as before.
pub proof fn lemma_pop_pushed_value(st: Seq<Slot>, t: SigView, v: Oop)
    requires
        has_type(t, v),
    ensures
        pop_value(st + stack_image(t, v), t) == Some((st, v)),
{
    let s2 = st + stack_image(t, v);
    match t {
        SigView::Long | SigView::Double => {
            assert(s2.drop_last().drop_last() =~= st);
            assert(s2[s2.len() - 2] == stack_image(t, v)[0]);
        },
        _ => {
            assert(s2.drop_last() =~= st);
        },
    }
}

/// Law: arguments that a caller pushes in order, each as its parameter
/// type, are the arguments the call takes off the stack, and the stack
/// below is as before.
pub proof fn lemma_pop_pushed_args(st: Seq<Slot>, ts: Seq<SigView>, vs: Seq<Oop>)
    requires
        ts.len() == vs.len(),
        forall|k: int| 0 <= k < ts.len() ==> has_type(#[trigger] ts[k], vs[k]),
    ensures
        pop_args(st + stack_images(ts, vs), ts) == Some((st, vs)),
    decreases ts.len(),
{
    if ts.len() > 0 {
        let t = ts.last();
        let v = vs.last();
        let below = st + stack_images(ts.drop_last(), vs.drop_last());
        assert(has_type(ts[ts.len() - 1], vs[vs.len() - 1]));
        assert(st + stack_images(ts, vs) =~= below + stack_image(t, v));
        lemma_pop_pushed_value(below, t, v);
        assert forall|k: int| 0 <= k < ts.drop_last().len() implies has_type(
            #[trigger] ts.drop_last()[k],
            vs.drop_last()[k],
        ) by {
            assert(has_type(ts[k], vs[k]));
        }
        lemma_pop_pushed_args(st, ts.drop_last(), vs.drop_last());
        assert(vs.drop_last().push(v) =~= vs);
    } else {
        assert(st + stack_images(ts, vs) =~= st);
        assert(vs =~= Seq::<Oop>::empty());
    }
}

/// Turns `v` around in place.
fn reverse_in_place(v: &mut Vec<Oop>)
    ensures
        final(v)@ == reversed(old(v)@),
{
    let n = v.len();
    let mut out: Vec<Oop> = Vec::new();
    let mut k = n;
    while k > 0
        invariant
            k <= n,
            n == v@.len(),
            v@ == old(v)@,
            out@.len() == n - k,
            forall|i: int| 0 <= i < n - k ==> out@[i] == v@[n - 1 - i],
        decreases k,
    {
        out.push(v[k - 1]);
        k = k - 1;
    }
    assert(out@ =~= reversed(old(v)@));
    *v = out;
}

impl JavaCall {
    /// A call of `mir` with the given arguments, the receiver first.
    pub fn new_with_args(classes: &ClassTable, mir: MethodRef, args: Vec<Oop>) -> (r: JavaCall)
        requires
            has_valid_desc(classes, mir),
        ensures
            r.mir == mir,
            r.args@ == args@,
            r.return_type@ == method_sig(classes, mir).retype,
    {
        let m = classes.get_method(mir);
        let sig = MethodSignature::new(m.desc.as_slice());
        let return_type = sig.retype;
        JavaCall { mir, args, return_type }
    }

    /// A call of `mir` made from a frame whose operand stack is `caller`:
    /// takes the arguments, and for an instance method the receiver below
    /// them, off that stack. A `null` receiver throws
    /// `NullPointerException` on the thread and makes no call.
    pub fn new(caller: &mut Stack, classes: &ClassTable, mir: MethodRef, thread: &mut JavaThread) -> (r: Result<JavaCall, ()>)
        requires
            has_valid_desc(classes, mir),
            pop_args(old(caller)@, method_sig(classes, mir).args) matches Some((st, _)) && (
            !has_flag(classes.method(mir).acc_flags, ACC_STATIC) ==> (
            st.len() >= 1 && st.last() is Ref)),
        ensures
            ({
                let (st, vs) = pop_args(old(caller)@, method_sig(classes, mir).args).unwrap();
                if has_flag(classes.method(mir).acc_flags, ACC_STATIC) {
                    &&& final(caller)@ == st
                    &&& *final(thread) == *old(thread)
                    &&& r matches Ok(c) && c.mir == mir && c.args@ == vs
                        && c.return_type@ == method_sig(classes, mir).retype
                } else {
                    let this = st.last()->Ref_0;
                    &&& final(caller)@ == st.drop_last()
                    &&& if this is Null {
                        &&& r is Err
                        &&& final(thread).ex == Some(JavaException::NullPointer)
                        &&& final(thread).frames == old(thread).frames
                    } else {
                        &&& *final(thread) == *old(thread)
                        &&& r matches Ok(c) && c.mir == mir && c.args@ == seq![this] + vs
                            && c.return_type@ == method_sig(classes, mir).retype
                    }
                }
            }),
    {
        let m = classes.get_method(mir);
        let sig = MethodSignature::new(m.desc.as_slice());
        let mut args = build_method_args(caller, &sig);
        let ghost popped = args@;
        reverse_in_place(&mut args);
        assert(args@ =~= pop_args(old(caller)@, method_sig(classes, mir).args).unwrap().1) by {
            assert(reversed(popped) =~= args@);
        }
        let return_type = sig.retype;
        if !m.is_static() {
            let this = caller.pop_ref();
            match this {
                Oop::Null => {
                    thread.ex = Some(JavaException::NullPointer);
                    return Err(());
                },
                _ => {},
            }
            args.insert(0, this);
        }
        Ok(JavaCall { mir, args, return_type })
    }
}

/// Pushes the value `v` that a method of return type `return_type` gave
/// back onto the caller's operand stack; nothing for `void`.
pub fn set_return(caller: Option<&mut Stack>, return_type: SignatureType, v: Option<Oop>)
    requires
        !(return_type@ is Void) ==> (caller is Some && v is Some && has_type(return_type@, v->0)),
    ensures
        caller is Some ==> final(caller->0)@ == old(caller->0)@ + (if return_type@ is Void {
            Seq::<Slot>::empty()
        } else {
            stack_image(return_type@, v->0)
        }),
{
    match return_type {
        SignatureType::Byte | SignatureType::Short | SignatureType::Char | SignatureType::Int
        | SignatureType::Boolean => {
            match (caller, v) {
                (Some(area), Some(Oop::Int(x))) => {
                    let ghost before = area@;
                    area.push_int(x);
                    assert(area@ =~= before + seq![Slot::I32(x)]);
                },
                _ => {
                    proof {
                        assert(false);
                    }
                },
            }
        },
        SignatureType::Long => {
            match (caller, v) {
                (Some(area), Some(Oop::Long(x))) => {
                    let ghost before = area@;
                    area.push_long(x);
                    assert(area@ =~= before + seq![Slot::I64(x), Slot::Nop]);
                },
                _ => {
                    proof {
                        assert(false);
                    }
                },
            }
        },
        SignatureType::Float => {
            match (caller, v) {
                (Some(area), Some(Oop::Float(x))) => {
                    let ghost before = area@;
                    area.push_float(x);
                    assert(area@ =~= before + seq![Slot::F32(x)]);
                },
                _ => {
                    proof {
                        assert(false);
                    }
                },
            }
        },
        SignatureType::Double => {
            match (caller, v) {
                (Some(area), Some(Oop::Double(x))) => {
                    let ghost before = area@;
                    area.push_double(x);
                    assert(area@ =~= before + seq![Slot::F64(x), Slot::Nop]);
                },
                _ => {
                    proof {
                        assert(false);
                    }
                },
            }
        },
        SignatureType::Object(_) | SignatureType::Array(_) => {
            match (caller, v) {
                (Some(area), Some(x)) => {
                    let ghost before = area@;
                    area.push_ref(x);
                    assert(area@ =~= before + seq![Slot::Ref(x)]);
                },
                _ => {
                    proof {
                        assert(false);
                    }
                },
            }
        },
        SignatureType::Void => {
            match caller {
                Some(area) => {
                    assert(area@ =~= area@ + Seq::<Slot>::empty());
                },
                None => {},
            }
        },
    }
}

/// The local-variable slots that an argument takes (JVMS 2.6.1).
pub open spec fn local_image(v: Oop) -> Seq<Slot> {
    match v {
        Oop::Int(x) => seq![Slot::I32(x)],
        Oop::Float(x) => seq![Slot::F32(x)],
        Oop::Double(x) => seq![Slot::F64(x), Slot::Nop],
        Oop::Long(x) => seq![Slot::I64(x), Slot::Nop],
        _ => seq![Slot::Ref(v)],
    }
}

/// The local-variable slots that the arguments take, one after another
/// from slot 0.
pub open spec fn locals_image(args: Seq<Oop>) -> Seq<Slot>
    decreases args.len(),
{
    if args.len() == 0 {
        Seq::empty()
    } else {
        locals_image(args.drop_last()) + local_image(args.last())
    }
}

/// `n` empty slots.
pub open spec fn nops(n: nat) -> Seq<Slot> {
    Seq::new(n, |i: int| Slot::Nop)
}

/// The local variables of a new frame: empty for a native method; for a
/// Java method, the arguments from slot 0 and empty slots after them.
pub open spec fn frame_locals(args: Seq<Oop>, max_locals: nat, is_native: bool) -> Seq<Slot> {
    if is_native {
        nops(max_locals)
    } else {
        locals_image(args) + nops((max_locals - locals_image(args).len()) as nat)
    }
}

proof fn lemma_locals_image_concat(a: Seq<Oop>, b: Seq<Oop>)
    ensures
        locals_image(a + b) == locals_image(a) + locals_image(b),
    decreases b.len(),
{
    if b.len() == 0 {
        assert(a + b =~= a);
        assert(locals_image(a) + locals_image(b) =~= locals_image(a));
    } else {
        lemma_locals_image_concat(a, b.drop_last());
        assert((a + b).drop_last() =~= a + b.drop_last());
        assert((a + b).last() == b.last());
        assert(locals_image(a + b) =~= locals_image(a) + locals_image(b));
    }
}

proof fn lemma_locals_image_take(args: Seq<Oop>, k: int)
    requires
        0 <= k < args.len(),
    ensures
        locals_image(args.take(k + 1)) == locals_image(args.take(k)) + local_image(args[k]),
        locals_image(args.take(k + 1)).len() <= locals_image(args).len(),
{
    assert(args.take(k + 1).drop_last() =~= args.take(k));
    assert(args =~= args.take(k + 1) + args.skip(k + 1));
    lemma_locals_image_concat(args.take(k + 1), args.skip(k + 1));
}

/// Law: in a new Java frame, argument `k` stands in the slots that follow
/// those of the arguments before it.
pub proof fn lemma_argument_slots(args: Seq<Oop>, k: int)
    requires
        0 <= k < args.len(),
    ensures
        ({
            let off = locals_image(args.take(k)).len() as int;
            locals_image(args).subrange(off, off + local_image(args[k]).len())
                == local_image(args[k])
        }),
{
    let off = locals_image(args.take(k)).len() as int;
    lemma_locals_image_take(args, k);
    assert(args =~= args.take(k + 1) + args.skip(k + 1));
    lemma_locals_image_concat(args.take(k + 1), args.skip(k + 1));
    assert(locals_image(args).subrange(off, off + local_image(args[k]).len()) =~= local_image(
        args[k],
    ));
}

impl Frame {
    /// A frame for `mir` at depth `frame_id`, its locals all empty.
    pub fn new(mir: MethodRef, frame_id: usize, max_locals: usize) -> (f: Frame)
        ensures
            f.mir == mir,
            f.frame_id == frame_id,
            f.locals@ == nops(max_locals as nat),
            f.stack@ == Seq::<Slot>::empty(),
            f.return_v is None,
    {
        let mut locals: Vec<Slot> = Vec::new();
        let mut i: usize = 0;
        while i < max_locals
            invariant
                i <= max_locals,
                locals@ == nops(i as nat),
            decreases max_locals - i,
        {
            locals.push(Slot::Nop);
            i = i + 1;
            assert(locals@ =~= nops(i as nat));
        }
        Frame { mir, frame_id, locals, stack: Stack::new(), return_v: None }
    }
}

impl JavaCall {
    /// Makes the frame of this call on a thread that holds `depth` frames,
    /// or fails with `StackOverflowError` when the thread is full.
    pub fn prepare_frame(&self, classes: &ClassTable, depth: usize, is_native: bool) -> (r: Result<Frame, JavaException>)
        requires
            classes.is_method(self.mir),
            !is_native && depth < THREAD_MAX_STACK_FRAMES ==> locals_image(self.args@).len()
                <= classes.method(self.mir).max_locals,
        ensures
            depth >= THREAD_MAX_STACK_FRAMES ==> r == Result::<Frame, JavaException>::Err(JavaException::StackOverflow),
            depth < THREAD_MAX_STACK_FRAMES ==> (r matches Ok(f) && f.mir == self.mir
                && f.frame_id == depth + 1 && f.locals@ == frame_locals(
                self.args@,
                classes.method(self.mir).max_locals as nat,
                is_native,
            ) && f.stack@ == Seq::<Slot>::empty() && f.return_v is None),
    {
        if depth >= THREAD_MAX_STACK_FRAMES {
            return Err(JavaException::StackOverflow);
        }
        let max_locals = classes.get_method(self.mir).max_locals;
        let mut frame = Frame::new(self.mir, depth + 1, max_locals);
        if !is_native {
            let mut slot_pos: usize = 0;
            let mut k: usize = 0;
            let ghost args = self.args@;
            assert(args.take(0) =~= Seq::<Oop>::empty());
            assert(frame.locals@ =~= locals_image(args.take(0)) + nops(max_locals as nat));
            while k < self.args.len()
                invariant
                    args == self.args@,
                    k <= args.len(),
                    locals_image(args).len() <= max_locals,
                    slot_pos == locals_image(args.take(k as int)).len(),
                    slot_pos <= max_locals,
                    frame.locals@ == locals_image(args.take(k as int)) + nops(
                        (max_locals - slot_pos) as nat,
                    ),
                    frame.mir == self.mir,
                    frame.frame_id == depth + 1,
                    frame.stack@ == Seq::<Slot>::empty(),
                    frame.return_v is None,
                decreases args.len() - k,
            {
                proof {
                    lemma_locals_image_take(args, k as int);
                }
                let ghost before = frame.locals@;
                let v = self.args[k];
                let step: usize = match v {
                    Oop::Int(x) => {
                        frame.locals.set(slot_pos, Slot::I32(x));
                        1
                    },
                    Oop::Float(x) => {
                        frame.locals.set(slot_pos, Slot::F32(x));
                        1
                    },
                    Oop::Double(x) => {
                        frame.locals.set(slot_pos, Slot::F64(x));
                        frame.locals.set(slot_pos + 1, Slot::Nop);
                        2
                    },
                    Oop::Long(x) => {
                        frame.locals.set(slot_pos, Slot::I64(x));
                        frame.locals.set(slot_pos + 1, Slot::Nop);
                        2
                    },
                    _ => {
                        frame.locals.set(slot_pos, Slot::Ref(v));
                        1
                    },
                };
                slot_pos = slot_pos + step;
                k = k + 1;
                assert(frame.locals@ =~= locals_image(args.take(k as int)) + nops(
                    (max_locals - slot_pos) as nat,
                ));
            }
            assert(args.take(args.len() as int) =~= args);
        }
        Ok(frame)
    }
}

/// `resolve_virtual_method` looks the method up again in the receiver's
/// class: unless told not to, for an abstract method, a public or protected
/// one that is not final, and one with no access flags at all.
pub open spec fn resolve_again(flags: u16, force_no_resolve: bool) -> bool {
    !force_no_resolve && (has_flag(flags, ACC_ABSTRACT) || (has_flag(flags, ACC_PUBLIC)
        && !has_flag(flags, ACC_FINAL)) || (has_flag(flags, ACC_PROTECTED) && !has_flag(
        flags,
        ACC_FINAL,
    )) || flags == 0)
}

/// The class of the instance that `v` refers to, if it refers to one.
pub open spec fn receiver_class(heap: &Heap, v: Oop) -> Option<usize> {
    match v {
        Oop::Ref(r) => match heap.kinds@[r as int] {
            RefKind::Inst { class } => Some(class),
            RefKind::Constructor { class, .. } => Some(class),
            _ => None,
        },
        _ => None,
    }
}

/// The method that a call of `mir` runs on an instance of class `c`: the
/// method of the same name and descriptor that dispatch on `c` selects,
/// when the call is looked up again and the lookup finds one; `mir`
/// otherwise.
pub open spec fn dispatched_on(classes: &ClassTable, c: usize, mir: MethodRef, force_no_resolve: bool) -> MethodRef {
    let m = classes.method(mir);
    if resolve_again(m.acc_flags, force_no_resolve) {
        match virtual_method(classes, c, m.name@, m.desc@) {
            Some(found) => found,
            None => mir,
        }
    } else {
        mir
    }
}

/// The method that a call of `mir` on `args` runs: the receiver class's
/// method of the same name and descriptor when the call is looked up again
/// and the lookup finds one, `mir` otherwise.
pub open spec fn resolved_method(
    classes: &ClassTable,
    heap: &Heap,
    mir: MethodRef,
    args: Seq<Oop>,
    force_no_resolve: bool,
) -> MethodRef {
    if resolve_again(classes.method(mir).acc_flags, force_no_resolve) {
        match receiver_class(heap, args[0]) {
            Some(c) => dispatched_on(classes, c, mir, force_no_resolve),
            None => mir,
        }
    } else {
        mir
    }
}

/// Law: the method that dispatch selects has the name and descriptor of
/// the method called, so the call's signature, and its return type, stay
/// what they were.
pub proof fn lemma_dispatch_keeps_signature(
    classes: &ClassTable,
    heap: &Heap,
    mir: MethodRef,
    args: Seq<Oop>,
    force_no_resolve: bool,
)
    ensures
        ({
            let r = resolved_method(classes, heap, mir, args, force_no_resolve);
            &&& classes.method(r).name@ == classes.method(mir).name@
            &&& classes.method(r).desc@ == classes.method(mir).desc@
            &&& method_sig(classes, r) == method_sig(classes, mir)
        }),
{
    let m = classes.method(mir);
    match receiver_class(heap, args[0]) {
        Some(c) => crate::oop::lemma_virtual_method_matches(classes, c, m.name@, m.desc@),
        None => {},
    }
}

/// Law: on the operand stack, a value of a type held in an `int`
/// (`byte`, `short`, `char`, `int`, `boolean`) is taken off an `int` slot,
/// and a reference off a reference slot; a reference slot never gives such
/// a value, nor an `int` slot a reference.
pub proof fn lemma_pop_value_slots(st: Seq<Slot>, x: i32, v: Oop, name: Seq<u8>)
    ensures
        pop_value(st.push(Slot::I32(x)), SigView::Byte) == Some((st, Oop::Int(x))),
        pop_value(st.push(Slot::I32(x)), SigView::Short) == Some((st, Oop::Int(x))),
        pop_value(st.push(Slot::I32(x)), SigView::Char) == Some((st, Oop::Int(x))),
        pop_value(st.push(Slot::I32(x)), SigView::Int) == Some((st, Oop::Int(x))),
        pop_value(st.push(Slot::I32(x)), SigView::Boolean) == Some((st, Oop::Int(x))),
        pop_value(st.push(Slot::Ref(v)), SigView::Object(name)) == Some((st, v)),
        pop_value(st.push(Slot::Ref(v)), SigView::Array(name)) == Some((st, v)),
        pop_value(st.push(Slot::Ref(v)), SigView::Char) is None,
        pop_value(st.push(Slot::Ref(v)), SigView::Int) is None,
        pop_value(st.push(Slot::I32(x)), SigView::Object(name)) is None,
{
    assert(st.push(Slot::I32(x)).drop_last() =~= st);
    assert(st.push(Slot::Ref(v)).drop_last() =~= st);
}

/// Law: the receiver of a call on an object that is an instance of class
/// `c` — a plain instance or a `Constructor` object — is of class `c`;
/// arrays, primitive arrays and `Class` objects are no instance receivers.
pub proof fn lemma_receiver_class(heap: &Heap, r: usize, c: usize)
    ensures
        (heap.kinds@[r as int] matches RefKind::Inst { class } && class == c) ==> receiver_class(
            heap,
            Oop::Ref(r),
        ) == Some(c),
        (heap.kinds@[r as int] matches RefKind::Constructor { class, .. } && class == c)
            ==> receiver_class(heap, Oop::Ref(r)) == Some(c),
        (heap.kinds@[r as int] is Array || heap.kinds@[r as int] is TypeArray
            || heap.kinds@[r as int] is Mirror) ==> receiver_class(heap, Oop::Ref(r)) is None,
{
}

/// Law: which calls are looked up again. Unless told not to, a call of an
/// abstract method, of a public or protected method that is not final, or
/// of one with no access flags is looked up again; any other call (private,
/// final, package-private with flags, static-only) is not; and a call that
/// is told not to is never looked up again.
pub proof fn lemma_resolve_again_cases(flags: u16)
    ensures
        has_flag(flags, ACC_ABSTRACT) ==> resolve_again(flags, false),
        has_flag(flags, ACC_PUBLIC) && !has_flag(flags, ACC_FINAL) ==> resolve_again(flags, false),
        has_flag(flags, ACC_PROTECTED) && !has_flag(flags, ACC_FINAL) ==> resolve_again(flags, false),
        flags == 0 ==> resolve_again(flags, false),
        resolve_again(flags, false) ==> has_flag(flags, ACC_ABSTRACT) || ((has_flag(flags, ACC_PUBLIC)
            || has_flag(flags, ACC_PROTECTED)) && !has_flag(flags, ACC_FINAL)) || flags == 0,
        !resolve_again(flags, true),
{
}

/// Law: a call looked up again on an instance of class `c` (a plain
/// instance or a `Constructor` object) runs the method that dispatch on `c`
/// selects for its name and descriptor; with nothing selected, or on a call
/// that is not looked up again, the method called runs.
pub proof fn lemma_dispatch_runs_override(
    classes: &ClassTable,
    heap: &Heap,
    mir: MethodRef,
    args: Seq<Oop>,
    r: usize,
    c: usize,
)
    requires
        args.len() >= 1,
        args[0] == Oop::Ref(r),
        (heap.kinds@[r as int] matches RefKind::Inst { class } && class == c) || (
        heap.kinds@[r as int] matches RefKind::Constructor { class, .. } && class == c),
    ensures
        ({
            let m = classes.method(mir);
            let flags = m.acc_flags;
            let looked_up = has_flag(flags, ACC_ABSTRACT) || ((has_flag(flags, ACC_PUBLIC)
                || has_flag(flags, ACC_PROTECTED)) && !has_flag(flags, ACC_FINAL)) || flags == 0;
            &&& looked_up && virtual_method(classes, c, m.name@, m.desc@) is Some
                ==> resolved_method(classes, heap, mir, args, false) == virtual_method(
                classes,
                c,
                m.name@,
                m.desc@,
            )->0
            &&& looked_up && virtual_method(classes, c, m.name@, m.desc@) is None
                ==> resolved_method(classes, heap, mir, args, false) == mir
            &&& !looked_up ==> resolved_method(classes, heap, mir, args, false) == mir
            &&& resolved_method(classes, heap, mir, args, true) == mir
        }),
{
    lemma_receiver_class(heap, r, c);
    lemma_resolve_again_cases(classes.method(mir).acc_flags);
}

/// A call that is looked up again has a receiver on the heap, and an
/// instance receiver's class is loaded.
pub open spec fn can_resolve(
    classes: &ClassTable,
    heap: &Heap,
    mir: MethodRef,
    args: Seq<Oop>,
    force_no_resolve: bool,
) -> bool {
    resolve_again(classes.method(mir).acc_flags, force_no_resolve) ==> (args.len() >= 1
        && args[0] is Ref && heap.is_object(ref_of(args[0])) && (receiver_class(heap, args[0]) matches Some(c) ==> c
        < classes.classes@.len()))
}

/// The monitor that a call of `mir` on `args` holds while it runs.
pub open spec fn sync_target(classes: &ClassTable, mir: MethodRef, args: Seq<Oop>) -> Option<MonitorTarget> {
    let flags = classes.method(mir).acc_flags;
    if has_flag(flags, ACC_SYNCHRONIZED) {
        if has_flag(flags, ACC_STATIC) {
            Some(MonitorTarget::Class(mir.class))
        } else {
            Some(MonitorTarget::Object(ref_of(args[0])))
        }
    } else {
        None
    }
}

/// A synchronized instance method has a receiver to lock.
pub open spec fn can_sync(classes: &ClassTable, mir: MethodRef, args: Seq<Oop>) -> bool {
    let flags = classes.method(mir).acc_flags;
    has_flag(flags, ACC_SYNCHRONIZED) && !has_flag(flags, ACC_STATIC) ==> (args.len() >= 1
        && args[0] is Ref)
}

/// Whether a call of `m` is looked up again.
pub fn resolve_again_for(m: &crate::oop::MethodInfo, force_no_resolve: bool) -> (r: bool)
    ensures
        r == resolve_again(m.acc_flags, force_no_resolve),
{
    if force_no_resolve {
        false
    } else {
        m.is_abstract() || (m.is_public() && !m.is_final()) || (m.is_protected() && !m.is_final())
            || m.acc_flags == 0
    }
}

impl JavaCall {
    /// Replaces the method with the one that dispatch on the receiver
    /// selects, where the call is looked up again.
    pub fn resolve_virtual_method(&mut self, force_no_resolve: bool, heap: &Heap, classes: &ClassTable)
        requires
            classes.wf(),
            classes.is_method(old(self).mir),
            can_resolve(classes, heap, old(self).mir, old(self).args@, force_no_resolve),
        ensures
            final(self).mir == resolved_method(
                classes,
                heap,
                old(self).mir,
                old(self).args@,
                force_no_resolve,
            ),
            classes.is_method(final(self).mir),
            classes.method(final(self).mir).name@ == classes.method(old(self).mir).name@,
            classes.method(final(self).mir).desc@ == classes.method(old(self).mir).desc@,
            final(self).args == old(self).args,
            final(self).return_type == old(self).return_type,
    {
        proof {
            lemma_dispatch_keeps_signature(classes, heap, self.mir, self.args@, force_no_resolve);
        }
        let m = classes.get_method(self.mir);
        if resolve_again_for(m, force_no_resolve) {
            let rf = match self.args[0] {
                Oop::Ref(rf) => rf,
                _ => {
                    proof {
                        assert(false);
                    }
                    0
                },
            };
            let receiver = match &heap.kinds[rf] {
                RefKind::Inst { class } => Some(*class),
                RefKind::Constructor { class, .. } => Some(*class),
                _ => None,
            };
            match receiver {
                Some(class) => {
                    match classes.get_virtual_method(class, m.name.as_slice(), m.desc.as_slice()) {
                        Some(found) => {
                            self.mir = found;
                        },
                        None => {},
                    }
                },
                None => {},
            }
        }
    }

    /// The monitor to enter before the call runs and to leave after it.
    pub fn sync_target(&self, classes: &ClassTable) -> (r: Option<MonitorTarget>)
        requires
            classes.is_method(self.mir),
            can_sync(classes, self.mir, self.args@),
        ensures
            r == sync_target(classes, self.mir, self.args@),
    {
        let m = classes.get_method(self.mir);
        if m.is_synchronized() {
            if m.is_static() {
                Some(MonitorTarget::Class(self.mir.class))
            } else {
                match self.args[0] {
                    Oop::Ref(rf) => Some(MonitorTarget::Object(rf)),
                    _ => {
                        proof {
                            assert(false);
                        }
                        None
                    },
                }
            }
        } else {
            None
        }
    }
}

/// A thread's frames once a call has finished: the top one popped.
pub open spec fn frames_after_finish(fs: Seq<Frame>) -> Seq<Frame> {
    if fs.len() == 0 {
        fs
    } else {
        fs.drop_last()
    }
}

/// What the machine does once a call has its frame.
#[derive(Clone, Copy, PartialEq, Eq, Structural, Debug)]
pub enum InvokeStep {
    /// Run the bytecode of the frame on top of the thread, then finish the
    /// call with that frame's return value.
    Interpret,
    /// Run this native function on the call's arguments, then finish the
    /// call with its result.
    CallNative(NativeFn, JNIEnv),
    /// No frame could be made: finish the call with this exception.
    Raise(JavaException),
}

/// The start of a call: the monitor to enter, then the step to take.
#[derive(Clone, Copy, PartialEq, Eq, Structural, Debug)]
pub struct InvokePlan {
    pub monitor_enter: Option<MonitorTarget>,
    pub step: InvokeStep,
}

/// The native function registered for the method `mir`.
pub open spec fn native_symbol(natives: Seq<NativeClass>, classes: &ClassTable, mir: MethodRef) -> Option<NativeFn> {
    let m = classes.method(mir);
    spec_find_symbol(natives, classes.classes@[mir.class as int].name@, m.name@, m.desc@)
}

/// A call of `mir` on `args`, on a thread that holds `depth` frames, can
/// start: it has a monitor to lock if it is synchronized, a registered
/// function if it is native, and, when it gets a frame, room in its locals
/// for its arguments otherwise.
pub open spec fn can_start(natives: Seq<NativeClass>, classes: &ClassTable, mir: MethodRef, args: Seq<Oop>, depth: int) -> bool {
    let m = classes.method(mir);
    &&& can_sync(classes, mir, args)
    &&& has_flag(m.acc_flags, ACC_NATIVE) ==> native_symbol(natives, classes, mir) is Some
    &&& !has_flag(m.acc_flags, ACC_NATIVE) && depth < THREAD_MAX_STACK_FRAMES ==> locals_image(args).len() <= m.max_locals
}

/// `f` is the frame that a call of `mir` on `args` gets at depth `id`.
pub open spec fn is_call_frame(f: Frame, classes: &ClassTable, mir: MethodRef, args: Seq<Oop>, id: int) -> bool {
    let m = classes.method(mir);
    &&& f.mir == mir
    &&& f.frame_id == id
    &&& f.locals@ == frame_locals(args, m.max_locals as nat, has_flag(m.acc_flags, ACC_NATIVE))
    &&& f.stack@ == Seq::<Slot>::empty()
    &&& f.return_v is None
}

/// What starting a call of `mir` on `args` does: `call` is the call
/// afterwards, `t0` and `t1` the thread before and after, `p` the plan.
/// The method is the one dispatch selects; its monitor is named; on a
/// thread that is not full the callee's frame is pushed and the step is to
/// run the native function registered for it or to interpret it, while a
/// full thread is left as it was and `StackOverflowError` is to be raised.
pub open spec fn invoke_post(
    classes: &ClassTable,
    heap: &Heap,
    natives: Seq<NativeClass>,
    mir: MethodRef,
    args: Seq<Oop>,
    force_no_resolve: bool,
    call: JavaCall,
    t0: JavaThread,
    t1: JavaThread,
    p: InvokePlan,
) -> bool {
    &&& call.mir == resolved_method(classes, heap, mir, args, force_no_resolve)
    &&& call.args@ == args
    &&& classes.is_method(call.mir)
    &&& p.monitor_enter == sync_target(classes, call.mir, args)
    &&& t1.ex == t0.ex
    &&& t0.frames@.len() >= THREAD_MAX_STACK_FRAMES ==> {
        &&& p.step == InvokeStep::Raise(JavaException::StackOverflow)
        &&& t1.frames@ == t0.frames@
    }
    &&& t0.frames@.len() < THREAD_MAX_STACK_FRAMES ==> {
        &&& t1.frames@.len() == t0.frames@.len() + 1
        &&& t1.frames@.drop_last() == t0.frames@
        &&& is_call_frame(t1.frames@.last(), classes, call.mir, args, t0.frames@.len() + 1 as int)
        &&& p.step == if has_flag(classes.method(call.mir).acc_flags, ACC_NATIVE) {
            InvokeStep::CallNative(
                native_symbol(natives, classes, call.mir)->0,
                JNIEnv { class: call.mir.class },
            )
        } else {
            InvokeStep::Interpret
        }
    }
}

/// What ending `call` with `outcome` does to the thread (`t0` before, `t1`
/// after), and the monitor `exit` it leaves: the top frame is popped, an
/// exception becomes the pending one, and the monitor is the call's.
pub open spec fn finish_post(
    classes: &ClassTable,
    call: JavaCall,
    t0: JavaThread,
    t1: JavaThread,
    outcome: JNIResult,
    exit: Option<MonitorTarget>,
) -> bool {
    &&& exit == sync_target(classes, call.mir, call.args@)
    &&& t1.frames@ == frames_after_finish(t0.frames@)
    &&& t1.ex == match outcome {
        Ok(_) => t0.ex,
        Err(ex) => Some(ex),
    }
}

/// Law: a call started with `invoke` and ended with `finish_invoke` on a
/// thread that is not full leaves the thread's frames as they were and
/// leaves the monitor it entered; an exception outcome is pending after it.
pub proof fn lemma_call_round_trip(
    classes: &ClassTable,
    heap: &Heap,
    natives: Seq<NativeClass>,
    mir: MethodRef,
    args: Seq<Oop>,
    force_no_resolve: bool,
    call: JavaCall,
    t0: JavaThread,
    t1: JavaThread,
    t2: JavaThread,
    p: InvokePlan,
    outcome: JNIResult,
    exit: Option<MonitorTarget>,
)
    requires
        t0.frames@.len() < THREAD_MAX_STACK_FRAMES,
        invoke_post(classes, heap, natives, mir, args, force_no_resolve, call, t0, t1, p),
        finish_post(classes, call, t1, t2, outcome, exit),
    ensures
        t2.frames@ == t0.frames@,
        exit == p.monitor_enter,
        t2.ex == match outcome {
            Ok(_) => t0.ex,
            Err(ex) => Some(ex),
        },
{
}

impl JavaCall {
    /// Starts the call: looks the method up again where dispatch asks for
    /// it, names the monitor to enter, and pushes the callee's frame on the
    /// thread. A native method is then to be run through its registered
    /// function, a Java method through the interpreter; a full thread gets
    /// `StackOverflowError` instead of a frame. `finish_invoke` ends the
    /// call.
    pub fn invoke(
        &mut self,
        force_no_resolve: bool,
        heap: &Heap,
        classes: &ClassTable,
        natives: &Vec<NativeClass>,
        thread: &mut JavaThread,
    ) -> (p: InvokePlan)
        requires
            classes.wf(),
            classes.is_method(old(self).mir),
            can_resolve(classes, heap, old(self).mir, old(self).args@, force_no_resolve),
            can_start(
                natives@,
                classes,
                resolved_method(classes, heap, old(self).mir, old(self).args@, force_no_resolve),
                old(self).args@,
                old(thread).frames@.len() as int,
            ),
        ensures
            invoke_post(
                classes,
                heap,
                natives@,
                old(self).mir,
                old(self).args@,
                force_no_resolve,
                *final(self),
                *old(thread),
                *final(thread),
                p,
            ),
            final(self).return_type == old(self).return_type,
    {
        self.resolve_virtual_method(force_no_resolve, heap, classes);
        let monitor_enter = self.sync_target(classes);
        let m = classes.get_method(self.mir);
        let is_native = m.is_native();
        let step = if is_native {
            let package = classes.classes[self.mir.class].name.as_slice();
            let f = match find_symbol(natives, package, m.name.as_slice(), m.desc.as_slice()) {
                Some(f) => f,
                None => {
                    proof {
                        assert(false);
                    }
                    NativeFn::ObjectRegisterNatives
                },
            };
            InvokeStep::CallNative(f, JNIEnv { class: self.mir.class })
        } else {
            InvokeStep::Interpret
        };
        match self.prepare_frame(classes, thread.frames.len(), is_native) {
            Ok(frame) => {
                thread.frames.push(frame);
                proof {
                    assert(thread.frames@.drop_last() =~= old(thread).frames@);
                }
                InvokePlan { monitor_enter, step }
            },
            Err(ex) => InvokePlan { monitor_enter, step: InvokeStep::Raise(ex) },
        }
    }

    /// Ends the call with its outcome: a value goes onto the caller's
    /// operand stack unless an exception is pending, an exception becomes
    /// the thread's pending one; the top frame is popped. Returns the
    /// monitor to leave.
    pub fn finish_invoke(
        &self,
        classes: &ClassTable,
        thread: &mut JavaThread,
        caller: Option<&mut Stack>,
        outcome: JNIResult,
    ) -> (r: Option<MonitorTarget>)
        requires
            classes.is_method(self.mir),
            can_sync(classes, self.mir, self.args@),
            outcome is Ok && old(thread).ex is None && !(self.return_type@ is Void) ==> (caller
                is Some && outcome->Ok_0 is Some && has_type(
                self.return_type@,
                outcome->Ok_0->0,
            )),
        ensures
            finish_post(classes, *self, *old(thread), *final(thread), outcome, r),
            caller is Some ==> final(caller->0)@ == old(caller->0)@ + (
            if outcome is Ok && old(thread).ex is None && !(self.return_type@ is Void) {
                stack_image(self.return_type@, outcome->Ok_0->0)
            } else {
                Seq::<Slot>::empty()
            }),
    {
        match outcome {
            Ok(v) => {
                if thread.ex.is_none() {
                    set_return(caller, self.return_type.clone(), v);
                } else {
                    match caller {
                        Some(area) => {
                            assert(area@ =~= area@ + Seq::<Slot>::empty());
                        },
                        None => {},
                    }
                }
            },
            Err(ex) => {
                thread.ex = Some(ex);
                match caller {
                    Some(area) => {
                        assert(area@ =~= area@ + Seq::<Slot>::empty());
                    },
                    None => {},
                }
            },
        }
        let _ = thread.frames.pop();
        self.sync_target(classes)
    }
}

/// Whether the arguments fit in `max` local-variable slots.
pub fn locals_fit(args: &Vec<Oop>, max: usize) -> (r: bool)
    ensures
        r == (locals_image(args@).len() <= max),
{
    let mut used: usize = 0;
    let mut k: usize = 0;
    assert(args@.take(0) =~= Seq::<Oop>::empty());
    while k < args.len()
        invariant
            k <= args@.len(),
            used <= max,
            used == locals_image(args@.take(k as int)).len(),
        decreases args.len() - k,
    {
        proof {
            lemma_locals_image_take(args@, k as int);
        }
        let w: usize = match args[k] {
            Oop::Double(_) | Oop::Long(_) => 2,
            _ => 1,
        };
        if w > max - used {
            return false;
        }
        used = used + w;
        k = k + 1;
    }
    assert(args@.take(args@.len() as int) =~= args@);
    true
}

/// `v` is a value of `t` (see [`has_type`]).
pub fn is_value_of(t: &SignatureType, v: Oop) -> (r: bool)
    ensures
        r == has_type(t@, v),
{
    match t {
        SignatureType::Byte | SignatureType::Boolean | SignatureType::Int | SignatureType::Char
        | SignatureType::Short => matches!(v, Oop::Int(_)),
        SignatureType::Long => matches!(v, Oop::Long(_)),
        SignatureType::Float => matches!(v, Oop::Float(_)),
        SignatureType::Double => matches!(v, Oop::Double(_)),
        SignatureType::Object(_) | SignatureType::Array(_) => true,
        SignatureType::Void => false,
    }
}

impl JavaCall {
    /// Whether [`JavaCall::invoke`] may start this call: the classes are
    /// linked consistently, a call that is looked up again has a receiver,
    /// and the call can start (see [`can_start`]).
    pub fn can_invoke(
        &self,
        force_no_resolve: bool,
        heap: &Heap,
        classes: &ClassTable,
        natives: &Vec<NativeClass>,
        thread: &JavaThread,
    ) -> (r: bool)
        ensures
            r == (classes.wf() && classes.is_method(self.mir) && can_resolve(
                classes,
                heap,
                self.mir,
                self.args@,
                force_no_resolve,
            ) && can_start(
                natives@,
                classes,
                resolved_method(classes, heap, self.mir, self.args@, force_no_resolve),
                self.args@,
                thread.frames@.len() as int,
            )),
    {
        if !classes.check_wf() || !classes.has_method(self.mir) {
            return false;
        }
        let m = classes.get_method(self.mir);
        let mut target = self.mir;
        if resolve_again_for(m, force_no_resolve) {
            if self.args.len() == 0 {
                return false;
            }
            match self.args[0] {
                Oop::Ref(rf) => {
                    if rf >= heap.kinds.len() {
                        return false;
                    }
                    let receiver = match &heap.kinds[rf] {
                        RefKind::Inst { class } => Some(*class),
                        RefKind::Constructor { class, .. } => Some(*class),
                        _ => None,
                    };
                    match receiver {
                        Some(class) => {
                            if class >= classes.classes.len() {
                                return false;
                            }
                            match classes.get_virtual_method(class, m.name.as_slice(), m.desc.as_slice()) {
                                Some(found) => {
                                    target = found;
                                },
                                None => {},
                            }
                        },
                        None => {},
                    }
                },
                _ => {
                    return false;
                },
            }
        }
        assert(target == resolved_method(classes, heap, self.mir, self.args@, force_no_resolve));
        let t = classes.get_method(target);
        if t.is_synchronized() && !t.is_static() {
            if self.args.len() == 0 || !matches!(self.args[0], Oop::Ref(_)) {
                return false;
            }
        }
        if t.is_native() {
            let package = classes.classes[target.class].name.as_slice();
            find_symbol(natives, package, t.name.as_slice(), t.desc.as_slice()).is_some()
        } else {
            thread.frames.len() >= THREAD_MAX_STACK_FRAMES || locals_fit(&self.args, t.max_locals)
        }
    }

    /// Whether [`JavaCall::finish_invoke`] may end this call with `outcome`,
    /// with a caller frame or without one.
    pub fn can_finish(&self, classes: &ClassTable, thread: &JavaThread, has_caller: bool, outcome: &JNIResult) -> (r: bool)
        ensures
            r == (classes.is_method(self.mir) && can_sync(classes, self.mir, self.args@) && (
            outcome is Ok && thread.ex is None && !(self.return_type@ is Void) ==> (has_caller
                && outcome->Ok_0 is Some && has_type(self.return_type@, outcome->Ok_0->0)))),
    {
        if !classes.has_method(self.mir) {
            return false;
        }
        let m = classes.get_method(self.mir);
        if m.is_synchronized() && !m.is_static() {
            if self.args.len() == 0 || !matches!(self.args[0], Oop::Ref(_)) {
                return false;
            }
        }
        match outcome {
            Ok(v) => {
                if thread.ex.is_none() && !matches!(self.return_type, SignatureType::Void) {
                    match v {
                        Some(x) => has_caller && is_value_of(&self.return_type, *x),
                        None => false,
                    }
                } else {
                    true
                }
            },
            Err(_) => true,
        }
    }
}

/// The name of instance initialisers.
pub open spec fn init_name() -> Seq<u8> {
    "<init>".spec_bytes()
}

/// The constructor with descriptor `desc` that class `cls` declares.
pub open spec fn ctor_of(classes: &ClassTable, cls: usize, desc: Seq<u8>) -> MethodRef {
    crate::oop::this_class_method(classes, cls, init_name(), desc)->0
}

/// Starts the call of the constructor with descriptor `desc` of class
/// `cls` on `args`, the new object first, as native code calls Java code:
/// with dispatch not suppressed. It is ended with
/// [`JavaCall::finish_ctor`], which has no caller frame to return to.
pub fn invoke_ctor(
    classes: &ClassTable,
    cls: usize,
    desc: &[u8],
    args: Vec<Oop>,
    heap: &Heap,
    natives: &Vec<NativeClass>,
    thread: &mut JavaThread,
) -> (r: (JavaCall, InvokePlan))
    requires
        classes.wf(),
        cls < classes.classes@.len(),
        crate::oop::this_class_method(classes, cls, init_name(), desc@) matches Some(m)
            && has_valid_desc(classes, m),
        can_resolve(classes, heap, ctor_of(classes, cls, desc@), args@, false),
        can_start(
            natives@,
            classes,
            resolved_method(classes, heap, ctor_of(classes, cls, desc@), args@, false),
            args@,
            old(thread).frames@.len() as int,
        ),
    ensures
        invoke_post(
            classes,
            heap,
            natives@,
            ctor_of(classes, cls, desc@),
            args@,
            false,
            r.0,
            *old(thread),
            *final(thread),
            r.1,
        ),
        r.0.return_type@ == method_sig(classes, ctor_of(classes, cls, desc@)).retype,
{
    let ctor = match classes.get_this_class_method(cls, "<init>".as_bytes(), desc) {
        Some(m) => m,
        None => {
            proof {
                assert(false);
            }
            MethodRef { class: cls, index: 0 }
        },
    };
    let mut call = JavaCall::new_with_args(classes, ctor, args);
    let plan = call.invoke(false, heap, classes, natives, thread);
    (call, plan)
}

impl JavaCall {
    /// Ends a call made from native code, which has no caller frame: the
    /// top frame is popped and an exception outcome becomes pending; a
    /// value outcome goes nowhere. Returns the monitor to leave.
    pub fn finish_ctor(&self, classes: &ClassTable, thread: &mut JavaThread, outcome: JNIResult) -> (r: Option<MonitorTarget>)
        requires
            classes.is_method(self.mir),
            can_sync(classes, self.mir, self.args@),
            outcome is Ok && old(thread).ex is None ==> self.return_type@ is Void,
        ensures
            finish_post(classes, *self, *old(thread), *final(thread), outcome, r),
    {
        self.finish_invoke(classes, thread, None, outcome)
    }
}

} // verus!
