//! Field and method descriptors (JVMS 4.3), their parser and encoder.
use vstd::prelude::*;

verus! {

/// A field type, or `Void` for a method's return type.
/// `Object` and `Array` keep their whole descriptor text
/// (`Ljava/lang/String;`, `[I`, `[[Ljava/lang/Object;`).
pub enum SignatureType {
    Byte,
    Char,
    Int,
    Double,
    Float,
    Long,
    Object(Vec<u8>),
    Short,
    Boolean,
    Array(Vec<u8>),
    Void,
}

/// The mathematical value of a [`SignatureType`].
pub enum SigView {
    Byte,
    Char,
    Int,
    Double,
    Float,
    Long,
    Object(Seq<u8>),
    Short,
    Boolean,
    Array(Seq<u8>),
    Void,
}

impl View for SignatureType {
    type V = SigView;

    open spec fn view(&self) -> SigView {
        match self {
            SignatureType::Byte => SigView::Byte,
            SignatureType::Char => SigView::Char,
            SignatureType::Int => SigView::Int,
            SignatureType::Double => SigView::Double,
            SignatureType::Float => SigView::Float,
            SignatureType::Long => SigView::Long,
            SignatureType::Object(d) => SigView::Object(d@),
            SignatureType::Short => SigView::Short,
            SignatureType::Boolean => SigView::Boolean,
            SignatureType::Array(d) => SigView::Array(d@),
            SignatureType::Void => SigView::Void,
        }
    }
}

/// `B`
pub const TAG_BYTE: u8 = 66;
/// `C`
pub const TAG_CHAR: u8 = 67;
/// `D`
pub const TAG_DOUBLE: u8 = 68;
/// `F`
pub const TAG_FLOAT: u8 = 70;
/// `I`
pub const TAG_INT: u8 = 73;
/// `J`
pub const TAG_LONG: u8 = 74;
/// `L`
pub const TAG_OBJECT: u8 = 76;
/// `S`
pub const TAG_SHORT: u8 = 83;
/// `V`
pub const TAG_VOID: u8 = 86;
/// `Z`
pub const TAG_BOOLEAN: u8 = 90;
/// `[`
pub const TAG_ARRAY: u8 = 91;
/// `;`
pub const NAME_END: u8 = 59;
/// `(`
pub const PARAMS_OPEN: u8 = 40;
/// `)`
pub const PARAMS_CLOSE: u8 = 41;

/// One of the eight base-type letters `B C D F I J S Z`.
pub open spec fn is_base_type_byte(b: u8) -> bool {
    b == TAG_BYTE || b == TAG_CHAR || b == TAG_DOUBLE || b == TAG_FLOAT || b == TAG_INT || b
        == TAG_LONG || b == TAG_SHORT || b == TAG_BOOLEAN
}

/// Position just after the `;` that closes a class name scanned from `k`.
pub open spec fn name_end(s: Seq<u8>, k: int) -> Option<int>
    decreases s.len() - k,
{
    if k < 0 || k >= s.len() {
        None
    } else if s[k] == NAME_END {
        Some(k + 1)
    } else {
        name_end(s, k + 1)
    }
}

/// Position just after the field descriptor that starts at `i`, if one does.
pub open spec fn field_end(s: Seq<u8>, i: int) -> Option<int>
    decreases s.len() - i,
{
    if i < 0 || i >= s.len() {
        None
    } else if is_base_type_byte(s[i]) {
        Some(i + 1)
    } else if s[i] == TAG_OBJECT {
        if i + 1 < s.len() && s[i + 1] != NAME_END {
            name_end(s, i + 1)
        } else {
            None
        }
    } else if s[i] == TAG_ARRAY {
        field_end(s, i + 1)
    } else {
        None
    }
}


/// The type that the field descriptor `s[i..e]` denotes.
pub open spec fn type_at(s: Seq<u8>, i: int, e: int) -> SigView {
    let b = s[i];
    if b == TAG_BYTE {
        SigView::Byte
    } else if b == TAG_CHAR {
        SigView::Char
    } else if b == TAG_DOUBLE {
        SigView::Double
    } else if b == TAG_FLOAT {
        SigView::Float
    } else if b == TAG_INT {
        SigView::Int
    } else if b == TAG_LONG {
        SigView::Long
    } else if b == TAG_SHORT {
        SigView::Short
    } else if b == TAG_BOOLEAN {
        SigView::Boolean
    } else if b == TAG_OBJECT {
        SigView::Object(s.subrange(i, e))
    } else {
        SigView::Array(s.subrange(i, e))
    }
}

/// The parameter types read from `i` up to and including the closing `)`,
/// with the position just after it.
pub open spec fn params_from(s: Seq<u8>, i: int) -> Option<(Seq<SigView>, int)>
    decreases s.len() - i,
{
    if i < 0 || i >= s.len() {
        None
    } else if s[i] == PARAMS_CLOSE {
        Some((Seq::empty(), i + 1))
    } else {
        match field_end(s, i) {
            Some(e) => if i < e <= s.len() {
                match params_from(s, e) {
                    Some((rest, j)) => Some((seq![type_at(s, i, e)] + rest, j)),
                    None => None,
                }
            } else {
                None
            },
            None => None,
        }
    }
}

/// The return type that occupies all of `s` from `j` on.
pub open spec fn return_type_at(s: Seq<u8>, j: int) -> Option<SigView> {
    if 0 <= j && j + 1 == s.len() && s[j] == TAG_VOID {
        Some(SigView::Void)
    } else {
        match field_end(s, j) {
            Some(e) => if e == s.len() {
                Some(type_at(s, j, e))
            } else {
                None
            },
            None => None,
        }
    }
}

/// The mathematical value of a [`MethodSignature`].
pub struct MethodSigView {
    pub args: Seq<SigView>,
    pub retype: SigView,
}

/// The method descriptor `(`ParameterDescriptor* `)` ReturnDescriptor
/// that is the whole of `s`, if `s` is one.
pub open spec fn spec_parse_method(s: Seq<u8>) -> Option<MethodSigView> {
    if s.len() == 0 || s[0] != PARAMS_OPEN {
        None
    } else {
        match params_from(s, 1) {
            Some((args, j)) => match return_type_at(s, j) {
                Some(r) => Some(MethodSigView { args, retype: r }),
                None => None,
            },
            None => None,
        }
    }
}

/// The descriptor text of a type.
pub open spec fn encode_type(t: SigView) -> Seq<u8> {
    match t {
        SigView::Byte => seq![TAG_BYTE],
        SigView::Char => seq![TAG_CHAR],
        SigView::Int => seq![TAG_INT],
        SigView::Double => seq![TAG_DOUBLE],
        SigView::Float => seq![TAG_FLOAT],
        SigView::Long => seq![TAG_LONG],
        SigView::Object(d) => d,
        SigView::Short => seq![TAG_SHORT],
        SigView::Boolean => seq![TAG_BOOLEAN],
        SigView::Array(d) => d,
        SigView::Void => seq![TAG_VOID],
    }
}

/// The descriptors of `ts`, one after another.
pub open spec fn encode_types(ts: Seq<SigView>) -> Seq<u8>
    decreases ts.len(),
{
    if ts.len() == 0 {
        Seq::empty()
    } else {
        encode_type(ts[0]) + encode_types(ts.drop_first())
    }
}

/// The method descriptor of `m`.
pub open spec fn encode_method(m: MethodSigView) -> Seq<u8> {
    seq![PARAMS_OPEN] + encode_types(m.args) + seq![PARAMS_CLOSE] + encode_type(m.retype)
}

/// `t` is a field type whose descriptor text is well formed.
pub open spec fn is_field_type(t: SigView) -> bool {
    let d = encode_type(t);
    &&& !(t is Void)
    &&& field_end(d, 0) == Some(d.len() as int)
    &&& type_at(d, 0, d.len() as int) == t
}

/// Every parameter is a well-formed field type, and the return type is
/// one too or is `Void`.
pub open spec fn is_method_sig(m: MethodSigView) -> bool {
    &&& forall|k: int| 0 <= k < m.args.len() ==> is_field_type(#[trigger] m.args[k])
    &&& (m.retype is Void || is_field_type(m.retype))
}

proof fn lemma_name_end_bounds(s: Seq<u8>, k: int)
    ensures
        name_end(s, k) matches Some(e) ==> 0 <= k < e <= s.len(),
    decreases s.len() - k,
{
    if 0 <= k < s.len() && s[k] != NAME_END {
        lemma_name_end_bounds(s, k + 1);
    }
}

proof fn lemma_field_end_bounds(s: Seq<u8>, i: int)
    ensures
        field_end(s, i) matches Some(e) ==> 0 <= i < e <= s.len(),
    decreases s.len() - i,
{
    if 0 <= i < s.len() {
        if s[i] == TAG_OBJECT && i + 1 < s.len() {
            lemma_name_end_bounds(s, i + 1);
        } else if s[i] == TAG_ARRAY {
            lemma_field_end_bounds(s, i + 1);
        }
    }
}

proof fn lemma_subrange_at(s: Seq<u8>, k: int, t: Seq<u8>, j: int, n: int, x: int)
    requires
        0 <= k,
        0 <= j,
        0 <= x < n,
        k + n <= s.len(),
        j + n <= t.len(),
        t.subrange(j, j + n) == s.subrange(k, k + n),
    ensures
        t[j + x] == s[k + x],
{
    assert(t.subrange(j, j + n)[x] == t[j + x]);
    assert(s.subrange(k, k + n)[x] == s[k + x]);
}

proof fn lemma_subrange_tail(s: Seq<u8>, k: int, t: Seq<u8>, j: int, n: int)
    requires
        0 <= k,
        0 <= j,
        1 <= n,
        k + n <= s.len(),
        j + n <= t.len(),
        t.subrange(j, j + n) == s.subrange(k, k + n),
    ensures
        t.subrange(j + 1, j + n) == s.subrange(k + 1, k + n),
{
    assert forall|x: int| 0 <= x < n - 1 implies #[trigger] t.subrange(j + 1, j + n)[x]
        == s.subrange(k + 1, k + n)[x] by {
        assert(t.subrange(j, j + n)[x + 1] == t[j + x + 1]);
        assert(s.subrange(k, k + n)[x + 1] == s[k + x + 1]);
        assert(t.subrange(j, j + n)[x + 1] == s.subrange(k, k + n)[x + 1]);
    }
    assert(t.subrange(j + 1, j + n) =~= s.subrange(k + 1, k + n));
}

proof fn lemma_name_end_shift(s: Seq<u8>, k: int, t: Seq<u8>, j: int, n: int)
    requires
        0 <= j,
        name_end(s, k) == Some(k + n),
        j + n <= t.len(),
        t.subrange(j, j + n) == s.subrange(k, k + n),
    ensures
        name_end(t, j) == Some(j + n),
    decreases s.len() - k,
{
    lemma_name_end_bounds(s, k);
    lemma_subrange_at(s, k, t, j, n, 0);
    if s[k] != NAME_END {
        lemma_name_end_bounds(s, k + 1);
        lemma_subrange_tail(s, k, t, j, n);
        lemma_name_end_shift(s, k + 1, t, j + 1, n - 1);
    }
}

/// A field descriptor is read the same wherever its bytes stand.
proof fn lemma_field_end_shift(s: Seq<u8>, i: int, t: Seq<u8>, j: int, n: int)
    requires
        0 <= j,
        field_end(s, i) == Some(i + n),
        j + n <= t.len(),
        t.subrange(j, j + n) == s.subrange(i, i + n),
    ensures
        field_end(t, j) == Some(j + n),
        type_at(t, j, j + n) == type_at(s, i, i + n),
    decreases s.len() - i,
{
    lemma_field_end_bounds(s, i);
    lemma_subrange_at(s, i, t, j, n, 0);
    if s[i] == TAG_OBJECT {
        lemma_name_end_bounds(s, i + 1);
        lemma_subrange_at(s, i, t, j, n, 1);
        lemma_subrange_tail(s, i, t, j, n);
        lemma_name_end_shift(s, i + 1, t, j + 1, n - 1);
    } else if s[i] == TAG_ARRAY {
        lemma_field_end_bounds(s, i + 1);
        lemma_subrange_tail(s, i, t, j, n);
        lemma_field_end_shift(s, i + 1, t, j + 1, n - 1);
    }
}

/// What the parser reads at `i` is a well-formed field type whose
/// descriptor is exactly the bytes it read.
proof fn lemma_read_type_encodes(s: Seq<u8>, i: int, e: int)
    requires
        field_end(s, i) == Some(e),
    ensures
        encode_type(type_at(s, i, e)) == s.subrange(i, e),
        is_field_type(type_at(s, i, e)),
{
    lemma_field_end_bounds(s, i);
    let d = s.subrange(i, e);
    if is_base_type_byte(s[i]) {
        assert(encode_type(type_at(s, i, e)) =~= d);
    }
    assert(d.subrange(0, e - i) =~= s.subrange(i, i + (e - i)));
    lemma_field_end_shift(s, i, d, 0, e - i);
}

proof fn lemma_sub_of_sub(t: Seq<u8>, j: int, w: Seq<u8>, a: int, b: int)
    requires
        0 <= j,
        j + w.len() <= t.len(),
        t.subrange(j, j + w.len()) == w,
        0 <= a <= b <= w.len(),
    ensures
        t.subrange(j + a, j + b) == w.subrange(a, b),
{
    assert forall|x: int| 0 <= x < b - a implies #[trigger] t.subrange(j + a, j + b)[x]
        == w.subrange(a, b)[x] by {
        assert(t.subrange(j, j + w.len())[a + x] == t[j + a + x]);
    }
    assert(t.subrange(j + a, j + b) =~= w.subrange(a, b));
}

proof fn lemma_params_encode(s: Seq<u8>, i: int)
    ensures
        params_from(s, i) matches Some((ps, j)) ==> {
            &&& 0 <= i < j <= s.len()
            &&& s.subrange(i, j) == encode_types(ps) + seq![PARAMS_CLOSE]
            &&& forall|k: int| 0 <= k < ps.len() ==> is_field_type(#[trigger] ps[k])
        },
    decreases s.len() - i,
{
    if let Some((ps, j)) = params_from(s, i) {
        if s[i] == PARAMS_CLOSE {
            assert(s.subrange(i, j) =~= encode_types(ps) + seq![PARAMS_CLOSE]);
        } else {
            let e = field_end(s, i).unwrap();
            lemma_params_encode(s, e);
            lemma_read_type_encodes(s, i, e);
            let (rest, j2) = params_from(s, e).unwrap();
            let t = type_at(s, i, e);
            assert(ps == seq![t] + rest);
            assert(ps[0] == t);
            assert(ps.drop_first() =~= rest);
            assert(s.subrange(i, j) =~= s.subrange(i, e) + s.subrange(e, j));
            assert(s.subrange(i, j) =~= encode_types(ps) + seq![PARAMS_CLOSE]);
            assert forall|k: int| 0 <= k < ps.len() implies is_field_type(#[trigger] ps[k]) by {
                if k > 0 {
                    assert(ps[k] == rest[k - 1]);
                }
            }
        }
    }
}

proof fn lemma_params_decode(t: Seq<u8>, j: int, ps: Seq<SigView>)
    requires
        0 <= j,
        forall|k: int| 0 <= k < ps.len() ==> is_field_type(#[trigger] ps[k]),
        j + encode_types(ps).len() + 1 <= t.len(),
        t.subrange(j, j + encode_types(ps).len() + 1) == encode_types(ps) + seq![PARAMS_CLOSE],
    ensures
        params_from(t, j) == Some((ps, j + encode_types(ps).len() + 1)),
    decreases ps.len(),
{
    let n = encode_types(ps).len();
    let w = encode_types(ps) + seq![PARAMS_CLOSE];
    if ps.len() == 0 {
        assert(t.subrange(j, j + w.len())[0] == t[j]);
        assert(t[j] == PARAMS_CLOSE);
    } else {
        let d = encode_type(ps[0]);
        let rest = ps.drop_first();
        let er = encode_types(rest);
        assert(is_field_type(ps[0]));
        lemma_field_end_bounds(d, 0);
        assert(w =~= d + (er + seq![PARAMS_CLOSE]));
        lemma_sub_of_sub(t, j, w, 0, d.len() as int);
        assert(w.subrange(0, d.len() as int) =~= d);
        assert(d.subrange(0, d.len() as int) =~= d);
        lemma_field_end_shift(d, 0, t, j, d.len() as int);
        assert(t.subrange(j, j + d.len())[0] == t[j]);
        assert(t[j] == d[0]);
        lemma_sub_of_sub(t, j, w, d.len() as int, w.len() as int);
        assert(w.subrange(d.len() as int, w.len() as int) =~= er + seq![PARAMS_CLOSE]);
        assert forall|k: int| 0 <= k < rest.len() implies is_field_type(#[trigger] rest[k]) by {
            assert(rest[k] == ps[k + 1]);
        }
        lemma_params_decode(t, j + d.len(), rest);
        assert(seq![type_at(t, j, j + d.len())] + rest =~= ps);
    }
}

/// A class name scanned from `k` ends just after the first `;` at or after
/// `k`, whatever other bytes stand before it.
proof fn lemma_name_end_at_first_semicolon(s: Seq<u8>, k: int, j: int)
    requires
        0 <= k <= j < s.len(),
        s[j] == NAME_END,
        forall|i: int| k <= i < j ==> s[i] != NAME_END,
    ensures
        name_end(s, k) == Some(j + 1),
    decreases j - k,
{
    if k < j {
        lemma_name_end_at_first_semicolon(s, k + 1, j);
    }
}

/// Law: `L`, any non-empty class name without `;` (so `$` and every other
/// byte included), then `;` is a field descriptor of an object type, and
/// reads back as that type.
pub proof fn lemma_object_type_is_field_type(n: Seq<u8>)
    requires
        n.len() > 0,
        forall|i: int| 0 <= i < n.len() ==> n[i] != NAME_END,
    ensures
        field_end(seq![TAG_OBJECT] + n + seq![NAME_END], 0) == Some(n.len() + 2 as int),
        is_field_type(SigView::Object(seq![TAG_OBJECT] + n + seq![NAME_END])),
{
    let d = seq![TAG_OBJECT] + n + seq![NAME_END];
    assert(d[0] == TAG_OBJECT);
    assert(d[1] == n[0]);
    assert(d[n.len() + 1 as int] == NAME_END);
    assert forall|i: int| 1 <= i < n.len() + 1 implies d[i] != NAME_END by {
        assert(d[i] == n[i - 1]);
    }
    lemma_name_end_at_first_semicolon(d, 1, n.len() + 1 as int);
    assert(d.subrange(0, d.len() as int) =~= d);
}

/// Law: the eight base types are field types, each written as its single
/// letter, and `[` before any field type is the field type of an array of
/// it.
pub proof fn lemma_base_and_array_field_types(t: SigView)
    ensures
        is_field_type(SigView::Byte) && encode_type(SigView::Byte) == seq![TAG_BYTE],
        is_field_type(SigView::Char) && encode_type(SigView::Char) == seq![TAG_CHAR],
        is_field_type(SigView::Double) && encode_type(SigView::Double) == seq![TAG_DOUBLE],
        is_field_type(SigView::Float) && encode_type(SigView::Float) == seq![TAG_FLOAT],
        is_field_type(SigView::Int) && encode_type(SigView::Int) == seq![TAG_INT],
        is_field_type(SigView::Long) && encode_type(SigView::Long) == seq![TAG_LONG],
        is_field_type(SigView::Short) && encode_type(SigView::Short) == seq![TAG_SHORT],
        is_field_type(SigView::Boolean) && encode_type(SigView::Boolean) == seq![TAG_BOOLEAN],
        !is_field_type(SigView::Void),
        is_field_type(t) ==> is_field_type(SigView::Array(seq![TAG_ARRAY] + encode_type(t))),
{
    if is_field_type(t) {
        let e = encode_type(t);
        let d = seq![TAG_ARRAY] + e;
        lemma_field_end_bounds(e, 0);
        assert(d.subrange(1, 1 + e.len() as int) =~= e.subrange(0, e.len() as int));
        lemma_field_end_shift(e, 0, d, 1, e.len() as int);
        assert(d[0] == TAG_ARRAY);
        assert(d.subrange(0, d.len() as int) =~= d);
    }
}

/// Law: whatever the parser accepts is a well-formed signature, and
/// encoding it gives back the descriptor it was read from.
pub proof fn lemma_parse_then_encode(s: Seq<u8>)
    ensures
        spec_parse_method(s) matches Some(m) ==> is_method_sig(m) && encode_method(m) == s,
{
    if let Some(m) = spec_parse_method(s) {
        lemma_params_encode(s, 1);
        let (args, j) = params_from(s, 1).unwrap();
        if 0 <= j && j + 1 == s.len() && s[j] == TAG_VOID {
            assert(s.subrange(j, s.len() as int) =~= encode_type(m.retype));
        } else {
            lemma_read_type_encodes(s, j, s.len() as int);
        }
        assert(s =~= seq![s[0]] + s.subrange(1, j) + s.subrange(j, s.len() as int));
        assert(s =~= encode_method(m));
    }
}

/// Law: every well-formed signature is read back from its own
/// descriptor.
pub proof fn lemma_encode_then_parse(m: MethodSigView)
    requires
        is_method_sig(m),
    ensures
        spec_parse_method(encode_method(m)) == Some(m),
{
    let s = encode_method(m);
    let e = encode_types(m.args);
    let r = encode_type(m.retype);
    let w = e + seq![PARAMS_CLOSE];
    assert(s =~= seq![PARAMS_OPEN] + w + r);
    assert(s.subrange(1, 1 + w.len() as int) =~= w);
    lemma_params_decode(s, 1, m.args);
    let j: int = 1 + w.len() as int;
    assert(s.subrange(j, s.len() as int) =~= r);
    if m.retype is Void {
        assert(s[j] == r[0]);
    } else {
        lemma_field_end_bounds(r, 0);
        assert(r.subrange(0, r.len() as int) =~= r);
        lemma_field_end_shift(r, 0, s, j, r.len() as int);
        assert(s[j] == r[0]);
    }
}

/// A parsed method descriptor: parameter types in order, and the return type.
pub struct MethodSignature {
    pub args: Vec<SignatureType>,
    pub retype: SignatureType,
}

/// The views of a sequence of types.
pub open spec fn views(ts: Seq<SignatureType>) -> Seq<SigView> {
    ts.map_values(|t: SignatureType| t@)
}

impl View for MethodSignature {
    type V = MethodSigView;

    open spec fn view(&self) -> MethodSigView {
        MethodSigView { args: views(self.args@), retype: self.retype@ }
    }
}

/// `b` is one of the base-type letters.
pub fn is_base_type(b: u8) -> (r: bool)
    ensures
        r == is_base_type_byte(b),
{
    b == TAG_BYTE || b == TAG_CHAR || b == TAG_DOUBLE || b == TAG_FLOAT || b == TAG_INT || b
        == TAG_LONG || b == TAG_SHORT || b == TAG_BOOLEAN
}

/// Finds where the field descriptor that starts at `i` ends.
fn scan_field_end(s: &[u8], i: usize) -> (r: Option<usize>)
    ensures
        r matches Some(e) ==> field_end(s@, i as int) == Some(e as int),
        r is None ==> field_end(s@, i as int) is None,
{
    let mut k = i;
    while k < s.len() && s[k] == TAG_ARRAY
        invariant
            i <= k,
            field_end(s@, i as int) == field_end(s@, k as int),
        decreases s.len() - k,
    {
        k = k + 1;
    }
    if k >= s.len() {
        return None;
    }
    let b = s[k];
    if is_base_type(b) {
        return Some(k + 1);
    }
    if b != TAG_OBJECT || k + 1 >= s.len() || s[k + 1] == NAME_END {
        return None;
    }
    let mut m = k + 1;
    while m < s.len() && s[m] != NAME_END
        invariant
            k + 1 <= m <= s.len(),
            name_end(s@, (k + 1) as int) == name_end(s@, m as int),
        decreases s.len() - m,
    {
        m = m + 1;
    }
    if m < s.len() {
        Some(m + 1)
    } else {
        None
    }
}

/// Builds the type whose descriptor is `s[i..e]`.
fn type_from(s: &[u8], i: usize, e: usize) -> (r: SignatureType)
    requires
        field_end(s@, i as int) == Some(e as int),
    ensures
        r@ == type_at(s@, i as int, e as int),
{
    proof {
        lemma_field_end_bounds(s@, i as int);
    }
    let b = s[i];
    if b == TAG_BYTE {
        SignatureType::Byte
    } else if b == TAG_CHAR {
        SignatureType::Char
    } else if b == TAG_DOUBLE {
        SignatureType::Double
    } else if b == TAG_FLOAT {
        SignatureType::Float
    } else if b == TAG_INT {
        SignatureType::Int
    } else if b == TAG_LONG {
        SignatureType::Long
    } else if b == TAG_SHORT {
        SignatureType::Short
    } else if b == TAG_BOOLEAN {
        SignatureType::Boolean
    } else {
        let d = vstd::slice::slice_to_vec(vstd::slice::slice_subrange(s, i, e));
        if b == TAG_OBJECT {
            SignatureType::Object(d)
        } else {
            SignatureType::Array(d)
        }
    }
}

/// What reading parameters from `i` gives, with `pre` read before.
pub open spec fn after_prefix(
    pre: Seq<SigView>,
    r: Option<(Seq<SigView>, int)>,
) -> Option<(Seq<SigView>, int)> {
    match r {
        Some((rest, j)) => Some((pre + rest, j)),
        None => None,
    }
}

impl MethodSignature {
    /// Parses a method descriptor; `None` exactly when `raw` is not one.
    pub fn parse(raw: &[u8]) -> (r: Option<MethodSignature>)
        ensures
            r matches Some(m) ==> spec_parse_method(raw@) == Some(m@),
            r is None ==> spec_parse_method(raw@) is None,
    {
        if raw.len() == 0 || raw[0] != PARAMS_OPEN {
            return None;
        }
        let mut args: Vec<SignatureType> = Vec::new();
        let mut i: usize = 1;
        loop
            invariant_except_break
                1 <= i <= raw.len(),
                params_from(raw@, 1) == after_prefix(views(args@), params_from(raw@, i as int)),
            ensures
                1 <= i <= raw.len(),
                params_from(raw@, 1) == Some((views(args@), i as int)),
            decreases raw.len() - i,
        {
            if i >= raw.len() {
                return None;
            }
            if raw[i] == PARAMS_CLOSE {
                assert(views(args@) + Seq::<SigView>::empty() =~= views(args@));
                i = i + 1;
                break ;
            }
            match scan_field_end(raw, i) {
                None => {
                    return None;
                },
                Some(e) => {
                    proof {
                        lemma_field_end_bounds(raw@, i as int);
                    }
                    let t = type_from(raw, i, e);
                    let ghost pre = views(args@);
                    args.push(t);
                    proof {
                        assert(views(args@) =~= pre.push(t@));
                        match params_from(raw@, e as int) {
                            Some((rest, j)) => {
                                assert(pre + (seq![t@] + rest) =~= pre.push(t@) + rest);
                            },
                            None => {},
                        }
                    }
                    i = e;
                },
            }
        }
        let retype = if i < raw.len() && i + 1 == raw.len() && raw[i] == TAG_VOID {
            SignatureType::Void
        } else {
            match scan_field_end(raw, i) {
                Some(e) => {
                    if e == raw.len() {
                        type_from(raw, i, e)
                    } else {
                        return None;
                    }
                },
                None => {
                    return None;
                },
            }
        };
        Some(MethodSignature { args, retype })
    }

    /// Parses a method descriptor that is known to be well formed.
    pub fn new(raw: &[u8]) -> (r: MethodSignature)
        requires
            spec_parse_method(raw@) is Some,
        ensures
            spec_parse_method(raw@) == Some(r@),
    {
        match MethodSignature::parse(raw) {
            Some(m) => m,
            None => {
                proof {
                    assert(false);
                }
                MethodSignature { args: Vec::new(), retype: SignatureType::Void }
            },
        }
    }
}

} // verus!
