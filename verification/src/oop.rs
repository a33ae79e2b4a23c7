//! Values, the operand stack, the heap and the loaded classes.
use vstd::prelude::*;

use crate::signature::SigView;

verus! {

/// A value of the virtual machine. A float or a double is held by its
/// IEEE-754 bit pattern; a reference is the index of its object on the heap.
#[derive(Clone, Copy, PartialEq, Eq, Structural, Debug)]
pub enum Oop {
    Null,
    Int(i32),
    Long(i64),
    Float(u32),
    Double(u64),
    Ref(usize),
}

/// The heap index that a reference holds.
pub open spec fn ref_of(v: Oop) -> usize {
    match v {
        Oop::Ref(r) => r,
        _ => 0,
    }
}

/// The number that a `long` holds.
pub open spec fn long_of(v: Oop) -> i64 {
    match v {
        Oop::Long(x) => x,
        _ => 0,
    }
}

/// One slot of an operand stack. A long or a double takes two slots:
/// its value, then a `Nop` above it.
#[derive(Clone, Copy, PartialEq, Eq, Structural, Debug)]
pub enum Slot {
    I32(i32),
    F32(u32),
    I64(i64),
    F64(u64),
    Ref(Oop),
    Nop,
}

/// The slots that a value of type `t` occupies on the operand stack.
pub open spec fn stack_image(t: SigView, v: Oop) -> Seq<Slot> {
    match t {
        SigView::Byte | SigView::Boolean | SigView::Int | SigView::Char | SigView::Short => {
            match v {
                Oop::Int(x) => seq![Slot::I32(x)],
                _ => Seq::empty(),
            }
        },
        SigView::Long => match v {
            Oop::Long(x) => seq![Slot::I64(x), Slot::Nop],
            _ => Seq::empty(),
        },
        SigView::Float => match v {
            Oop::Float(x) => seq![Slot::F32(x)],
            _ => Seq::empty(),
        },
        SigView::Double => match v {
            Oop::Double(x) => seq![Slot::F64(x), Slot::Nop],
            _ => Seq::empty(),
        },
        SigView::Object(_) | SigView::Array(_) => seq![Slot::Ref(v)],
        SigView::Void => Seq::empty(),
    }
}

/// `v` is a value of the (non-void) type `t`: an `int` for the types held
/// in an `int`, the matching variant for `long`, `float` and `double`, and
/// any value for a reference type (the machine does not check it).
pub open spec fn has_type(t: SigView, v: Oop) -> bool {
    match t {
        SigView::Byte | SigView::Boolean | SigView::Int | SigView::Char | SigView::Short => v is Int,
        SigView::Long => v is Long,
        SigView::Float => v is Float,
        SigView::Double => v is Double,
        SigView::Object(_) | SigView::Array(_) => true,
        SigView::Void => false,
    }
}

/// Law: how a value of each type stands on the operand stack: a value of
/// a type held in an `int` (`byte`, `short`, `char`, `int`, `boolean`) in
/// one `int` slot, a `float` in one float slot, a `long` or a `double` in
/// its slot with an empty one above, a reference in one reference slot.
pub proof fn lemma_stack_image_shapes(x: i32, f: u32, l: i64, d: u64, v: Oop, name: Seq<u8>)
    ensures
        stack_image(SigView::Byte, Oop::Int(x)) == seq![Slot::I32(x)],
        stack_image(SigView::Short, Oop::Int(x)) == seq![Slot::I32(x)],
        stack_image(SigView::Char, Oop::Int(x)) == seq![Slot::I32(x)],
        stack_image(SigView::Int, Oop::Int(x)) == seq![Slot::I32(x)],
        stack_image(SigView::Boolean, Oop::Int(x)) == seq![Slot::I32(x)],
        stack_image(SigView::Float, Oop::Float(f)) == seq![Slot::F32(f)],
        stack_image(SigView::Long, Oop::Long(l)) == seq![Slot::I64(l), Slot::Nop],
        stack_image(SigView::Double, Oop::Double(d)) == seq![Slot::F64(d), Slot::Nop],
        stack_image(SigView::Object(name), v) == seq![Slot::Ref(v)],
        stack_image(SigView::Array(name), v) == seq![Slot::Ref(v)],
        has_type(SigView::Byte, v) <==> v is Int,
        has_type(SigView::Short, v) <==> v is Int,
        has_type(SigView::Char, v) <==> v is Int,
        has_type(SigView::Int, v) <==> v is Int,
        has_type(SigView::Boolean, v) <==> v is Int,
{
}

/// The operand stack of a frame.
pub struct Stack {
    pub inner: Vec<Slot>,
}

impl View for Stack {
    type V = Seq<Slot>;

    open spec fn view(&self) -> Seq<Slot> {
        self.inner@
    }
}

impl Stack {
    pub fn new() -> (r: Stack)
        ensures
            r@ == Seq::<Slot>::empty(),
    {
        Stack { inner: Vec::new() }
    }

    pub fn push_int(&mut self, v: i32)
        ensures
            final(self)@ == old(self)@.push(Slot::I32(v)),
    {
        self.inner.push(Slot::I32(v));
    }

    pub fn push_float(&mut self, v: u32)
        ensures
            final(self)@ == old(self)@.push(Slot::F32(v)),
    {
        self.inner.push(Slot::F32(v));
    }

    pub fn push_long(&mut self, v: i64)
        ensures
            final(self)@ == old(self)@.push(Slot::I64(v)).push(Slot::Nop),
    {
        self.inner.push(Slot::I64(v));
        self.inner.push(Slot::Nop);
    }

    pub fn push_double(&mut self, v: u64)
        ensures
            final(self)@ == old(self)@.push(Slot::F64(v)).push(Slot::Nop),
    {
        self.inner.push(Slot::F64(v));
        self.inner.push(Slot::Nop);
    }

    pub fn push_ref(&mut self, v: Oop)
        ensures
            final(self)@ == old(self)@.push(Slot::Ref(v)),
    {
        self.inner.push(Slot::Ref(v));
    }

    pub fn pop_int(&mut self) -> (v: i32)
        requires
            old(self)@.len() >= 1,
            old(self)@.last() is I32,
        ensures
            old(self)@.last() == Slot::I32(v),
            final(self)@ == old(self)@.drop_last(),
    {
        match self.inner.pop() {
            Some(Slot::I32(v)) => v,
            _ => {
                proof {
                    assert(false);
                }
                0
            },
        }
    }

    pub fn pop_float(&mut self) -> (v: u32)
        requires
            old(self)@.len() >= 1,
            old(self)@.last() is F32,
        ensures
            old(self)@.last() == Slot::F32(v),
            final(self)@ == old(self)@.drop_last(),
    {
        match self.inner.pop() {
            Some(Slot::F32(v)) => v,
            _ => {
                proof {
                    assert(false);
                }
                0
            },
        }
    }

    pub fn pop_long(&mut self) -> (v: i64)
        requires
            old(self)@.len() >= 2,
            old(self)@.last() is Nop,
            old(self)@[old(self)@.len() - 2] is I64,
        ensures
            old(self)@[old(self)@.len() - 2] == Slot::I64(v),
            final(self)@ == old(self)@.drop_last().drop_last(),
    {
        let _ = self.inner.pop();
        match self.inner.pop() {
            Some(Slot::I64(v)) => v,
            _ => {
                proof {
                    assert(false);
                }
                0
            },
        }
    }

    pub fn pop_double(&mut self) -> (v: u64)
        requires
            old(self)@.len() >= 2,
            old(self)@.last() is Nop,
            old(self)@[old(self)@.len() - 2] is F64,
        ensures
            old(self)@[old(self)@.len() - 2] == Slot::F64(v),
            final(self)@ == old(self)@.drop_last().drop_last(),
    {
        let _ = self.inner.pop();
        match self.inner.pop() {
            Some(Slot::F64(v)) => v,
            _ => {
                proof {
                    assert(false);
                }
                0
            },
        }
    }

    pub fn pop_ref(&mut self) -> (v: Oop)
        requires
            old(self)@.len() >= 1,
            old(self)@.last() is Ref,
        ensures
            old(self)@.last() == Slot::Ref(v),
            final(self)@ == old(self)@.drop_last(),
    {
        match self.inner.pop() {
            Some(Slot::Ref(v)) => v,
            _ => {
                proof {
                    assert(false);
                }
                Oop::Null
            },
        }
    }
}

/// What a heap object is.
pub enum RefKind {
    /// An instance of the class with this index.
    Inst { class: usize },
    /// An array of references whose array class has this index.
    Array { class: usize, elements: Vec<Oop> },
    /// An array of a primitive type.
    TypeArray,
    /// The `java.lang.Class` object of the class with index `target`.
    Mirror { target: Option<usize> },
    /// A `java.lang.reflect.Constructor` object, an instance of the class
    /// with index `class`, with its `clazz` field (the `Class` object of the
    /// class it constructs) and its `signature` field (the constructor's
    /// descriptor).
    Constructor { class: usize, clazz: Oop, signature: Vec<u8> },
}

/// The objects of the machine, each with its identity hash once one was
/// taken.
pub struct Heap {
    pub kinds: Vec<RefKind>,
    pub hash_codes: Vec<Option<i32>>,
}

impl Heap {
    /// Each object has exactly one hash entry.
    pub open spec fn wf(&self) -> bool {
        self.kinds@.len() == self.hash_codes@.len()
    }

    /// `r` names an object on this heap.
    pub open spec fn is_object(&self, r: usize) -> bool {
        r < self.kinds@.len()
    }

    /// Whether each object has exactly one hash entry.
    pub fn check_wf(&self) -> (b: bool)
        ensures
            b == self.wf(),
    {
        self.kinds.len() == self.hash_codes.len()
    }

    pub fn new() -> (h: Heap)
        ensures
            h.wf(),
            h.kinds@.len() == 0,
    {
        Heap { kinds: Vec::new(), hash_codes: Vec::new() }
    }

    /// Places a new object on the heap and returns the reference to it.
    pub fn allocate(&mut self, kind: RefKind) -> (r: Oop)
        requires
            old(self).wf(),
        ensures
            final(self).wf(),
            r == Oop::Ref(old(self).kinds@.len() as usize),
            final(self).kinds@ == old(self).kinds@.push(kind),
            final(self).hash_codes@ == old(self).hash_codes@.push(None),
    {
        let r = self.kinds.len();
        self.kinds.push(kind);
        self.hash_codes.push(None);
        Oop::Ref(r)
    }
}

/// `ACC_PUBLIC`
pub const ACC_PUBLIC: u16 = 0x0001;
/// `ACC_PRIVATE`
pub const ACC_PRIVATE: u16 = 0x0002;
/// `ACC_PROTECTED`
pub const ACC_PROTECTED: u16 = 0x0004;
/// `ACC_STATIC`
pub const ACC_STATIC: u16 = 0x0008;
/// `ACC_FINAL`
pub const ACC_FINAL: u16 = 0x0010;
/// `ACC_SYNCHRONIZED`
pub const ACC_SYNCHRONIZED: u16 = 0x0020;
/// `ACC_NATIVE`
pub const ACC_NATIVE: u16 = 0x0100;
/// `ACC_ABSTRACT`
pub const ACC_ABSTRACT: u16 = 0x0400;

/// The flag bit `bit` is set in `flags`.
pub open spec fn has_flag(flags: u16, bit: u16) -> bool {
    flags & bit != 0
}

/// A method of a loaded class.
pub struct MethodInfo {
    pub name: Vec<u8>,
    pub desc: Vec<u8>,
    pub acc_flags: u16,
    /// The size of its local variable array.
    pub max_locals: usize,
}

impl MethodInfo {
    pub fn is_static(&self) -> (r: bool)
        ensures
            r == has_flag(self.acc_flags, ACC_STATIC),
    {
        self.acc_flags & ACC_STATIC != 0
    }

    pub fn is_native(&self) -> (r: bool)
        ensures
            r == has_flag(self.acc_flags, ACC_NATIVE),
    {
        self.acc_flags & ACC_NATIVE != 0
    }

    pub fn is_synchronized(&self) -> (r: bool)
        ensures
            r == has_flag(self.acc_flags, ACC_SYNCHRONIZED),
    {
        self.acc_flags & ACC_SYNCHRONIZED != 0
    }

    pub fn is_abstract(&self) -> (r: bool)
        ensures
            r == has_flag(self.acc_flags, ACC_ABSTRACT),
    {
        self.acc_flags & ACC_ABSTRACT != 0
    }

    pub fn is_public(&self) -> (r: bool)
        ensures
            r == has_flag(self.acc_flags, ACC_PUBLIC),
    {
        self.acc_flags & ACC_PUBLIC != 0
    }

    pub fn is_protected(&self) -> (r: bool)
        ensures
            r == has_flag(self.acc_flags, ACC_PROTECTED),
    {
        self.acc_flags & ACC_PROTECTED != 0
    }

    pub fn is_final(&self) -> (r: bool)
        ensures
            r == has_flag(self.acc_flags, ACC_FINAL),
    {
        self.acc_flags & ACC_FINAL != 0
    }
}

/// A method, named by its class and its place in that class's method list.
#[derive(Clone, Copy, PartialEq, Eq, Structural, Debug)]
pub struct MethodRef {
    pub class: usize,
    pub index: usize,
}

/// A loaded class.
pub struct ClassInfo {
    pub name: Vec<u8>,
    /// Its `java.lang.Class` object, once created.
    pub mirror: Option<Oop>,
    /// The methods that the class itself declares.
    pub methods: Vec<MethodInfo>,
    /// The methods that dispatch on an instance of the class can select,
    /// its own and the inherited ones, after linking.
    pub vtable: Vec<MethodRef>,
}

/// All loaded classes, by index.
pub struct ClassTable {
    pub classes: Vec<ClassInfo>,
}

impl ClassTable {
    /// `r` names a method of a loaded class.
    pub open spec fn is_method(&self, r: MethodRef) -> bool {
        r.class < self.classes@.len() && r.index < self.classes@[r.class as int].methods@.len()
    }

    /// The method that `r` names.
    pub open spec fn method(&self, r: MethodRef) -> MethodInfo {
        self.classes@[r.class as int].methods@[r.index as int]
    }

    /// Every dispatch table names methods of loaded classes.
    pub open spec fn wf(&self) -> bool {
        forall|c: int, k: int|
            0 <= c < self.classes@.len() && 0 <= k < self.classes@[c].vtable@.len() ==> self.is_method(
                #[trigger] self.classes@[c].vtable@[k],
            )
    }

    /// Whether `r` names a method of a loaded class.
    pub fn has_method(&self, r: MethodRef) -> (b: bool)
        ensures
            b == self.is_method(r),
    {
        r.class < self.classes.len() && r.index < self.classes[r.class].methods.len()
    }

    /// Whether every dispatch table names methods of loaded classes.
    pub fn check_wf(&self) -> (b: bool)
        ensures
            b == self.wf(),
    {
        let mut c: usize = 0;
        while c < self.classes.len()
            invariant
                c <= self.classes@.len(),
                forall|c2: int, k: int|
                    0 <= c2 < c && 0 <= k < self.classes@[c2].vtable@.len() ==> self.is_method(
                        #[trigger] self.classes@[c2].vtable@[k],
                    ),
            decreases self.classes.len() - c,
        {
            let vt = &self.classes[c].vtable;
            let mut k: usize = 0;
            while k < vt.len()
                invariant
                    c < self.classes@.len(),
                    vt@ == self.classes@[c as int].vtable@,
                    k <= vt@.len(),
                    forall|c2: int, k2: int|
                        0 <= c2 < c && 0 <= k2 < self.classes@[c2].vtable@.len() ==> self.is_method(
                            #[trigger] self.classes@[c2].vtable@[k2],
                        ),
                    forall|k2: int| 0 <= k2 < k ==> self.is_method(#[trigger] vt@[k2]),
                decreases vt.len() - k,
            {
                if !self.has_method(vt[k]) {
                    return false;
                }
                k = k + 1;
            }
            c = c + 1;
        }
        true
    }

    pub fn get_method(&self, r: MethodRef) -> (m: &MethodInfo)
        requires
            self.is_method(r),
        ensures
            *m == self.method(r),
    {
        &self.classes[r.class].methods[r.index]
    }
}

/// `a` and `b` hold the same bytes.
pub fn bytes_eq(a: &[u8], b: &[u8]) -> (r: bool)
    ensures
        r == (a@ == b@),
{
    if a.len() != b.len() {
        return false;
    }
    let mut i: usize = 0;
    while i < a.len()
        invariant
            a@.len() == b@.len(),
            i <= a@.len(),
            forall|k: int| 0 <= k < i ==> a@[k] == b@[k],
        decreases a.len() - i,
    {
        if a[i] != b[i] {
            return false;
        }
        i = i + 1;
    }
    assert(a@ =~= b@);
    true
}

/// The first place, from `k` on, where a method with this name and
/// descriptor stands in `ms`.
pub open spec fn first_method_from(ms: Seq<MethodInfo>, name: Seq<u8>, desc: Seq<u8>, k: int) -> Option<int>
    decreases ms.len() - k,
{
    if k < 0 || k >= ms.len() {
        None
    } else if ms[k].name@ == name && ms[k].desc@ == desc {
        Some(k)
    } else {
        first_method_from(ms, name, desc, k + 1)
    }
}

/// The method that a class declares under this name and descriptor.
pub open spec fn this_class_method(t: &ClassTable, class: usize, name: Seq<u8>, desc: Seq<u8>) -> Option<MethodRef> {
    match first_method_from(t.classes@[class as int].methods@, name, desc, 0) {
        Some(k) => Some(MethodRef { class, index: k as usize }),
        None => None,
    }
}

/// The first place, from `k` on, of a dispatch-table entry whose method
/// has this name and descriptor.
pub open spec fn first_virtual_from(t: &ClassTable, vt: Seq<MethodRef>, name: Seq<u8>, desc: Seq<u8>, k: int) -> Option<int>
    decreases vt.len() - k,
{
    if k < 0 || k >= vt.len() {
        None
    } else if t.method(vt[k]).name@ == name && t.method(vt[k]).desc@ == desc {
        Some(k)
    } else {
        first_virtual_from(t, vt, name, desc, k + 1)
    }
}

/// The method that dispatch on an instance of `class` selects for this name
/// and descriptor.
pub open spec fn virtual_method(t: &ClassTable, class: usize, name: Seq<u8>, desc: Seq<u8>) -> Option<MethodRef> {
    let vt = t.classes@[class as int].vtable@;
    match first_virtual_from(t, vt, name, desc, 0) {
        Some(k) => Some(vt[k]),
        None => None,
    }
}

proof fn lemma_first_virtual_from(t: &ClassTable, vt: Seq<MethodRef>, name: Seq<u8>, desc: Seq<u8>, k: int)
    ensures
        first_virtual_from(t, vt, name, desc, k) matches Some(i) ==> 0 <= i < vt.len()
            && t.method(vt[i]).name@ == name && t.method(vt[i]).desc@ == desc,
    decreases vt.len() - k,
{
    if 0 <= k < vt.len() {
        lemma_first_virtual_from(t, vt, name, desc, k + 1);
    }
}

/// Law: dispatch selects only a method of the name and descriptor it was
/// asked for.
pub proof fn lemma_virtual_method_matches(t: &ClassTable, class: usize, name: Seq<u8>, desc: Seq<u8>)
    ensures
        virtual_method(t, class, name, desc) matches Some(m) ==> t.method(m).name@ == name
            && t.method(m).desc@ == desc,
{
    lemma_first_virtual_from(t, t.classes@[class as int].vtable@, name, desc, 0);
}

proof fn lemma_first_method_from(ms: Seq<MethodInfo>, name: Seq<u8>, desc: Seq<u8>, k: int)
    requires
        0 <= k,
    ensures
        first_method_from(ms, name, desc, k) matches Some(i) ==> k <= i < ms.len() && ms[i].name@
            == name && ms[i].desc@ == desc && forall|j: int|
            k <= j < i ==> !(ms[j].name@ == name && ms[j].desc@ == desc),
        first_method_from(ms, name, desc, k) is None ==> forall|j: int|
            k <= j < ms.len() ==> !(#[trigger] ms[j].name@ == name && ms[j].desc@ == desc),
    decreases ms.len() - k,
{
    if 0 <= k < ms.len() {
        lemma_first_method_from(ms, name, desc, k + 1);
    }
}

/// Law: a class's own method lookup finds a method of that class with
/// exactly the name and the descriptor asked for, the first one it declares;
/// and it finds none only when the class declares no such method.
pub proof fn lemma_this_class_method_matches(t: &ClassTable, class: usize, name: Seq<u8>, desc: Seq<u8>)
    requires
        class < t.classes@.len(),
        t.classes@[class as int].methods@.len() <= usize::MAX,
    ensures
        this_class_method(t, class, name, desc) matches Some(m) ==> {
            &&& m.class == class
            &&& t.is_method(m)
            &&& t.method(m).name@ == name
            &&& t.method(m).desc@ == desc
            &&& forall|j: int|
                0 <= j < m.index ==> !(t.classes@[class as int].methods@[j].name@ == name
                    && t.classes@[class as int].methods@[j].desc@ == desc)
        },
        this_class_method(t, class, name, desc) is None ==> forall|j: int|
            0 <= j < t.classes@[class as int].methods@.len() ==> !(
            #[trigger] t.classes@[class as int].methods@[j].name@ == name
                && t.classes@[class as int].methods@[j].desc@ == desc),
{
    lemma_first_method_from(t.classes@[class as int].methods@, name, desc, 0);
}

impl ClassTable {
    /// Looks a method up among those the class itself declares.
    pub fn get_this_class_method(&self, class: usize, name: &[u8], desc: &[u8]) -> (r: Option<MethodRef>)
        requires
            class < self.classes@.len(),
        ensures
            r == this_class_method(self, class, name@, desc@),
            r matches Some(m) ==> self.is_method(m) && m.class == class && self.method(m).name@
                == name@ && self.method(m).desc@ == desc@,
    {
        let ms = &self.classes[class].methods;
        let n = ms.len();
        proof {
            lemma_this_class_method_matches(self, class, name@, desc@);
        }
        let mut k: usize = 0;
        while k < ms.len()
            invariant
                class < self.classes@.len(),
                ms@ == self.classes@[class as int].methods@,
                k <= ms@.len(),
                first_method_from(ms@, name@, desc@, 0) == first_method_from(ms@, name@, desc@, k as int),
            decreases ms.len() - k,
        {
            if bytes_eq(ms[k].name.as_slice(), name) && bytes_eq(ms[k].desc.as_slice(), desc) {
                return Some(MethodRef { class, index: k });
            }
            k = k + 1;
        }
        None
    }

    /// Looks a method up in the class's dispatch table.
    pub fn get_virtual_method(&self, class: usize, name: &[u8], desc: &[u8]) -> (r: Option<MethodRef>)
        requires
            self.wf(),
            class < self.classes@.len(),
        ensures
            r == virtual_method(self, class, name@, desc@),
            r matches Some(m) ==> self.is_method(m),
    {
        let vt = &self.classes[class].vtable;
        let mut k: usize = 0;
        while k < vt.len()
            invariant
                self.wf(),
                class < self.classes@.len(),
                vt@ == self.classes@[class as int].vtable@,
                k <= vt@.len(),
                first_virtual_from(self, vt@, name@, desc@, 0) == first_virtual_from(self, vt@, name@, desc@, k as int),
            decreases vt.len() - k,
        {
            let r = vt[k];
            assert(self.is_method(self.classes@[class as int].vtable@[k as int]));
            let m = self.get_method(r);
            if bytes_eq(m.name.as_slice(), name) && bytes_eq(m.desc.as_slice(), desc) {
                return Some(r);
            }
            k = k + 1;
        }
        None
    }
}

} // verus!
