//! The serializable form of a compiled module and its byte format: what a
//! compiler backend hands the engine, what an artifact writes out, and what
//! a headless engine reads back in. The engine treats the format itself as
//! opaque; what matters to it is that decoding either yields a module whose
//! trampolines line up with its signature table, or nothing.

use vstd::prelude::*;

use crate::types::{
    copy_vec, CustomSection, CustomSectionProtection, CustomSectionView, FunctionBody,
    FunctionBodyView, FunctionType, FunctionTypeView, ValueType,
};

verus! {

/// What the engine reads of a module's metadata: its signature table.
pub struct ModuleInfo {
    pub signatures: Vec<FunctionType>,
}

/// The mathematical value of a [`ModuleInfo`].
pub struct ModuleInfoView {
    pub signatures: Seq<FunctionTypeView>,
}

impl View for ModuleInfo {
    type V = ModuleInfoView;

    open spec fn view(&self) -> ModuleInfoView {
        ModuleInfoView { signatures: self.signatures@.map_values(|t: FunctionType| t@) }
    }
}

/// A compiled module in its position-independent form: typed bodies and
/// sections, before any of them is placed in memory.
pub struct SerializableModule {
    pub module: ModuleInfo,
    pub functions: Vec<FunctionBody>,
    pub function_call_trampolines: Vec<FunctionBody>,
    pub dynamic_function_trampolines: Vec<FunctionBody>,
    pub custom_sections: Vec<CustomSection>,
}

/// The mathematical value of a [`SerializableModule`].
pub struct SerializableModuleView {
    pub module: ModuleInfoView,
    pub functions: Seq<FunctionBodyView>,
    pub function_call_trampolines: Seq<FunctionBodyView>,
    pub dynamic_function_trampolines: Seq<FunctionBodyView>,
    pub custom_sections: Seq<CustomSectionView>,
}

impl View for SerializableModule {
    type V = SerializableModuleView;

    open spec fn view(&self) -> SerializableModuleView {
        SerializableModuleView {
            module: self.module@,
            functions: self.functions@.map_values(|b: FunctionBody| b@),
            function_call_trampolines: self.function_call_trampolines@.map_values(
                |b: FunctionBody| b@,
            ),
            dynamic_function_trampolines: self.dynamic_function_trampolines@.map_values(
                |b: FunctionBody| b@,
            ),
            custom_sections: self.custom_sections@.map_values(|s: CustomSection| s@),
        }
    }
}

/// A module the engine can load: one call trampoline per entry of the
/// signature table, under the same index.
pub open spec fn module_wf(m: SerializableModuleView) -> bool {
    m.function_call_trampolines.len() == m.module.signatures.len()
}

/// Every body of the list, and the list itself, fits the format's length
/// fields.
pub open spec fn bodies_encodable(bs: Seq<FunctionBodyView>) -> bool {
    &&& bs.len() < 0xffff_ffff
    &&& forall|i: int|
        0 <= i < bs.len() ==> (#[trigger] bs[i]).body.len() < 0xffff_ffff && (match bs[i].unwind_info {
            Some(u) => u.len() < 0xffff_ffff,
            None => true,
        })
}

/// Every list and byte blob of the module fits the format's length fields:
/// exactly the modules that serialize successfully.
pub open spec fn encodable(m: SerializableModuleView) -> bool {
    &&& m.module.signatures.len() < 0xffff_ffff
    &&& forall|i: int|
        0 <= i < m.module.signatures.len() ==> (#[trigger] m.module.signatures[i]).params.len()
            < 0xffff_ffff && m.module.signatures[i].results.len() < 0xffff_ffff
    &&& bodies_encodable(m.functions)
    &&& bodies_encodable(m.function_call_trampolines)
    &&& bodies_encodable(m.dynamic_function_trampolines)
    &&& m.custom_sections.len() < 0xffff_ffff
    &&& forall|i: int|
        0 <= i < m.custom_sections.len() ==> (#[trigger] m.custom_sections[i]).bytes.len()
            < 0xffff_ffff
}

/// The number of distinct value types the format can name.
const VALUE_TYPE_TAGS: u8 = 7;

/// The four little-endian bytes of a length or count field.
pub open spec fn spec_encode_u32(v: u32) -> Seq<u8> {
    seq![
        (v % 256) as u8,
        ((v / 256) % 256) as u8,
        ((v / 65536) % 256) as u8,
        ((v / 16777216) % 256) as u8,
    ]
}

/// The tag byte of a value type.
pub open spec fn spec_tag_of(t: ValueType) -> u8 {
    match t {
        ValueType::I32 => 0,
        ValueType::I64 => 1,
        ValueType::F32 => 2,
        ValueType::F64 => 3,
        ValueType::V128 => 4,
        ValueType::ExternRef => 5,
        ValueType::FuncRef => 6,
    }
}

/// A length-prefixed byte blob.
pub open spec fn spec_encode_bytes(s: Seq<u8>) -> Seq<u8> {
    spec_encode_u32(s.len() as u32) + s
}

/// A length-prefixed list of value-type tags.
pub open spec fn spec_encode_value_types(s: Seq<ValueType>) -> Seq<u8> {
    spec_encode_u32(s.len() as u32) + s.map_values(|t: ValueType| spec_tag_of(t))
}

/// A function type: its parameters, then its results.
pub open spec fn spec_encode_function_type(t: FunctionTypeView) -> Seq<u8> {
    spec_encode_value_types(t.params) + spec_encode_value_types(t.results)
}

/// A function body: its code, then a flag and the unwind metadata if any.
pub open spec fn spec_encode_function_body(b: FunctionBodyView) -> Seq<u8> {
    spec_encode_bytes(b.body) + (match b.unwind_info {
        Some(u) => seq![1u8] + spec_encode_bytes(u),
        None => seq![0u8],
    })
}

/// The signature table, entry by entry.
pub open spec fn spec_encode_sig_table(ts: Seq<FunctionTypeView>) -> Seq<u8>
    decreases ts.len(),
{
    if ts.len() == 0 {
        Seq::empty()
    } else {
        spec_encode_sig_table(ts.drop_last()) + spec_encode_function_type(ts.last())
    }
}

/// A list of function bodies, body by body.
pub open spec fn spec_encode_bodies(bs: Seq<FunctionBodyView>) -> Seq<u8>
    decreases bs.len(),
{
    if bs.len() == 0 {
        Seq::empty()
    } else {
        spec_encode_bodies(bs.drop_last()) + spec_encode_function_body(bs.last())
    }
}

/// A custom section: its protection byte, then its bytes.
pub open spec fn spec_encode_section(s: CustomSectionView) -> Seq<u8> {
    (match s.protection {
        CustomSectionProtection::Read => seq![0u8],
        CustomSectionProtection::ReadExecute => seq![1u8],
    }) + spec_encode_bytes(s.bytes)
}

/// The custom sections, section by section.
pub open spec fn spec_encode_sections(ss: Seq<CustomSectionView>) -> Seq<u8>
    decreases ss.len(),
{
    if ss.len() == 0 {
        Seq::empty()
    } else {
        spec_encode_sections(ss.drop_last()) + spec_encode_section(ss.last())
    }
}

/// The whole serialized module: the signature table, the three body
/// groups and the custom sections, each behind its count.
pub open spec fn spec_encode_module(m: SerializableModuleView) -> Seq<u8> {
    spec_encode_u32(m.module.signatures.len() as u32) + spec_encode_sig_table(m.module.signatures)
        + spec_encode_u32(m.functions.len() as u32) + spec_encode_bodies(m.functions)
        + spec_encode_u32(m.function_call_trampolines.len() as u32) + spec_encode_bodies(
        m.function_call_trampolines,
    ) + spec_encode_u32(m.dynamic_function_trampolines.len() as u32) + spec_encode_bodies(
        m.dynamic_function_trampolines,
    ) + spec_encode_u32(m.custom_sections.len() as u32) + spec_encode_sections(m.custom_sections)
}

fn value_type_tag(t: ValueType) -> (r: u8)
    ensures
        r < VALUE_TYPE_TAGS,
        r == spec_tag_of(t),
{
    match t {
        ValueType::I32 => 0,
        ValueType::I64 => 1,
        ValueType::F32 => 2,
        ValueType::F64 => 3,
        ValueType::V128 => 4,
        ValueType::ExternRef => 5,
        ValueType::FuncRef => 6,
    }
}

fn value_type_of_tag(b: u8) -> (r: Option<ValueType>)
    ensures
        b < VALUE_TYPE_TAGS <==> r is Some,
{
    if b == 0 {
        Some(ValueType::I32)
    } else if b == 1 {
        Some(ValueType::I64)
    } else if b == 2 {
        Some(ValueType::F32)
    } else if b == 3 {
        Some(ValueType::F64)
    } else if b == 4 {
        Some(ValueType::V128)
    } else if b == 5 {
        Some(ValueType::ExternRef)
    } else if b == 6 {
        Some(ValueType::FuncRef)
    } else {
        None
    }
}

fn emit_u32(out: &mut Vec<u8>, v: u32)
    ensures
        final(out)@ == old(out)@ + spec_encode_u32(v),
{
    out.push((v % 256) as u8);
    out.push(((v / 256) % 256) as u8);
    out.push(((v / 65536) % 256) as u8);
    out.push(((v / 16777216) % 256) as u8);
    proof {
        assert(out@ =~= old(out)@ + spec_encode_u32(v));
    }
}

fn read_u32(bytes: &Vec<u8>, pos: usize) -> (r: Option<(u32, usize)>)
    ensures
        r matches Some(p) ==> pos + 4 <= bytes@.len() && p.1 == pos + 4,
{
    if bytes.len() < 4 || pos > bytes.len() - 4 {
        return None;
    }
    let b0 = bytes[pos] as u32;
    let b1 = bytes[pos + 1] as u32;
    let b2 = bytes[pos + 2] as u32;
    let b3 = bytes[pos + 3] as u32;
    Some((b0 + b1 * 256 + b2 * 65536 + b3 * 16777216, pos + 4))
}

/// Emits a length-prefixed byte list; fails when the list is too long for
/// the format's length field.
fn emit_bytes(out: &mut Vec<u8>, v: &Vec<u8>) -> (r: bool)
    ensures
        r == (v@.len() < 0xffff_ffff),
        r ==> final(out)@ == old(out)@ + spec_encode_bytes(v@),
{
    if v.len() >= 0xffff_ffff {
        return false;
    }
    let ghost out0 = out@;
    emit_u32(out, v.len() as u32);
    let mut i: usize = 0;
    while i < v.len()
        invariant
            out@ == out0 + spec_encode_u32(v@.len() as u32) + v@.take(i as int),
            i <= v@.len(),
        decreases v@.len() - i,
    {
        out.push(v[i]);
        i = i + 1;
        proof {
            assert(out@ =~= out0 + spec_encode_u32(v@.len() as u32) + v@.take(i as int));
        }
    }
    proof {
        assert(v@.take(v@.len() as int) =~= v@);
        assert(out@ =~= out0 + spec_encode_bytes(v@));
    }
    true
}

fn read_bytes(bytes: &Vec<u8>, pos: usize) -> (r: Option<(Vec<u8>, usize)>)
    ensures
        r matches Some(p) ==> p.1 <= bytes@.len() && p.1 > pos,
{
    let (n, mut p) = match read_u32(bytes, pos) {
        Some(x) => x,
        None => {
            return None;
        },
    };
    let n = n as usize;
    if n > bytes.len() - p {
        return None;
    }
    let mut v: Vec<u8> = Vec::new();
    let mut i: usize = 0;
    while i < n
        invariant
            p + n <= bytes@.len(),
            bytes@.len() <= usize::MAX,
            i <= n,
        decreases n - i,
    {
        v.push(bytes[p + i]);
        i = i + 1;
    }
    Some((v, p + n))
}

fn emit_value_types(out: &mut Vec<u8>, v: &Vec<ValueType>) -> (r: bool)
    ensures
        r == (v@.len() < 0xffff_ffff),
        r ==> final(out)@ == old(out)@ + spec_encode_value_types(v@),
{
    if v.len() >= 0xffff_ffff {
        return false;
    }
    let ghost out0 = out@;
    let ghost tags = v@.map_values(|t: ValueType| spec_tag_of(t));
    emit_u32(out, v.len() as u32);
    let mut i: usize = 0;
    while i < v.len()
        invariant
            tags == v@.map_values(|t: ValueType| spec_tag_of(t)),
            out@ == out0 + spec_encode_u32(v@.len() as u32) + tags.take(i as int),
            i <= v@.len(),
        decreases v@.len() - i,
    {
        out.push(value_type_tag(v[i]));
        i = i + 1;
        proof {
            assert(tags[i - 1] == spec_tag_of(v@[i - 1]));
            assert(out@ =~= out0 + spec_encode_u32(v@.len() as u32) + tags.take(i as int));
        }
    }
    proof {
        assert(tags.take(v@.len() as int) =~= tags);
        assert(out@ =~= out0 + spec_encode_value_types(v@));
    }
    true
}

fn read_value_types(bytes: &Vec<u8>, pos: usize) -> (r: Option<(Vec<ValueType>, usize)>)
    ensures
        r matches Some(p) ==> p.1 <= bytes@.len() && p.1 > pos,
{
    let (n, p) = match read_u32(bytes, pos) {
        Some(x) => x,
        None => {
            return None;
        },
    };
    let n = n as usize;
    if n > bytes.len() - p {
        return None;
    }
    let mut v: Vec<ValueType> = Vec::new();
    let mut i: usize = 0;
    while i < n
        invariant
            p + n <= bytes@.len(),
            bytes@.len() <= usize::MAX,
            i <= n,
        decreases n - i,
    {
        match value_type_of_tag(bytes[p + i]) {
            Some(t) => v.push(t),
            None => {
                return None;
            },
        }
        i = i + 1;
    }
    Some((v, p + n))
}

fn emit_function_body(out: &mut Vec<u8>, b: &FunctionBody) -> (r: bool)
    ensures
        r == (b@.body.len() < 0xffff_ffff && (match b@.unwind_info {
            Some(u) => u.len() < 0xffff_ffff,
            None => true,
        })),
        r ==> final(out)@ == old(out)@ + spec_encode_function_body(b@),
{
    let ghost out0 = out@;
    if !emit_bytes(out, &b.body) {
        return false;
    }
    match &b.unwind_info {
        Some(u) => {
            out.push(1);
            let r = emit_bytes(out, u);
            proof {
                if r {
                    assert(out@ =~= out0 + spec_encode_function_body(b@));
                }
            }
            r
        },
        None => {
            out.push(0);
            proof {
                assert(out@ =~= out0 + spec_encode_function_body(b@));
            }
            true
        },
    }
}

fn read_function_body(bytes: &Vec<u8>, pos: usize) -> (r: Option<(FunctionBody, usize)>)
    ensures
        r matches Some(p) ==> p.1 <= bytes@.len() && p.1 > pos,
{
    let (body, p) = match read_bytes(bytes, pos) {
        Some(x) => x,
        None => {
            return None;
        },
    };
    if p >= bytes.len() {
        return None;
    }
    let flag = bytes[p];
    if flag == 0 {
        return Some((FunctionBody { body, unwind_info: None }, p + 1));
    }
    if flag != 1 {
        return None;
    }
    let (u, p2) = match read_bytes(bytes, p + 1) {
        Some(x) => x,
        None => {
            return None;
        },
    };
    Some((FunctionBody { body, unwind_info: Some(u) }, p2))
}

fn emit_function_bodies(out: &mut Vec<u8>, v: &Vec<FunctionBody>) -> (r: bool)
    ensures
        r == bodies_encodable(v@.map_values(|b: FunctionBody| b@)),
        r ==> final(out)@ == old(out)@ + spec_encode_u32(v@.len() as u32) + spec_encode_bodies(
            v@.map_values(|b: FunctionBody| b@),
        ),
{
    let ghost bs = v@.map_values(|b: FunctionBody| b@);
    if v.len() >= 0xffff_ffff {
        return false;
    }
    let ghost out0 = out@;
    emit_u32(out, v.len() as u32);
    proof {
        assert(bs.take(0) =~= Seq::<FunctionBodyView>::empty());
        assert(out@ =~= out0 + spec_encode_u32(v@.len() as u32) + spec_encode_bodies(bs.take(0)));
    }
    let mut i: usize = 0;
    while i < v.len()
        invariant
            bs == v@.map_values(|b: FunctionBody| b@),
            bs.len() < 0xffff_ffff,
            i <= bs.len(),
            out@ == out0 + spec_encode_u32(v@.len() as u32) + spec_encode_bodies(
                bs.take(i as int),
            ),
            forall|j: int|
                0 <= j < i ==> (#[trigger] bs[j]).body.len() < 0xffff_ffff && (match bs[j].unwind_info {
                    Some(u) => u.len() < 0xffff_ffff,
                    None => true,
                }),
        decreases v@.len() - i,
    {
        if !emit_function_body(out, &v[i]) {
            proof {
                assert(!(bs[i as int].body.len() < 0xffff_ffff && (match bs[i as int].unwind_info {
                    Some(u) => u.len() < 0xffff_ffff,
                    None => true,
                })));
            }
            return false;
        }
        i = i + 1;
        proof {
            assert(bs.take(i as int).drop_last() =~= bs.take(i - 1));
            assert(bs.take(i as int).last() == bs[i - 1]);
            assert(out@ =~= out0 + spec_encode_u32(v@.len() as u32) + spec_encode_bodies(
                bs.take(i as int),
            ));
        }
    }
    proof {
        assert(bs.take(bs.len() as int) =~= bs);
    }
    true
}

fn read_function_bodies(bytes: &Vec<u8>, pos: usize) -> (r: Option<(Vec<FunctionBody>, usize)>)
    ensures
        r matches Some(p) ==> p.1 <= bytes@.len(),
        r matches Some(p) ==> p.0@.len() < 0x1_0000_0000,
{
    let (n, mut p) = match read_u32(bytes, pos) {
        Some(x) => x,
        None => {
            return None;
        },
    };
    let n = n as usize;
    let mut v: Vec<FunctionBody> = Vec::new();
    let mut i: usize = 0;
    while i < n
        invariant
            p <= bytes@.len(),
            i <= n,
            n < 0x1_0000_0000,
            v@.len() == i,
        decreases n - i,
    {
        match read_function_body(bytes, p) {
            Some((b, p2)) => {
                v.push(b);
                p = p2;
            },
            None => {
                return None;
            },
        }
        i = i + 1;
    }
    Some((v, p))
}

fn emit_custom_section(out: &mut Vec<u8>, s: &CustomSection) -> (r: bool)
    ensures
        r == (s@.bytes.len() < 0xffff_ffff),
        r ==> final(out)@ == old(out)@ + spec_encode_section(s@),
{
    let ghost out0 = out@;
    match s.protection {
        CustomSectionProtection::Read => out.push(0),
        CustomSectionProtection::ReadExecute => out.push(1),
    }
    let r = emit_bytes(out, &s.bytes);
    proof {
        if r {
            assert(out@ =~= out0 + spec_encode_section(s@));
        }
    }
    r
}

fn read_custom_section(bytes: &Vec<u8>, pos: usize) -> (r: Option<(CustomSection, usize)>)
    ensures
        r matches Some(p) ==> p.1 <= bytes@.len() && p.1 > pos,
{
    if pos >= bytes.len() {
        return None;
    }
    let protection = if bytes[pos] == 0 {
        CustomSectionProtection::Read
    } else if bytes[pos] == 1 {
        CustomSectionProtection::ReadExecute
    } else {
        return None;
    };
    let (b, p) = match read_bytes(bytes, pos + 1) {
        Some(x) => x,
        None => {
            return None;
        },
    };
    Some((CustomSection { protection, bytes: b }, p))
}

/// Serializes a module: succeeds exactly when every list and blob fits
/// the format's length fields.
pub fn encode_module(m: &SerializableModule) -> (r: Option<Vec<u8>>)
    ensures
        r is Some <==> encodable(m@),
        r matches Some(bytes) ==> bytes@ == spec_encode_module(m@),
{
    let mut out: Vec<u8> = Vec::new();
    if m.module.signatures.len() >= 0xffff_ffff {
        return None;
    }
    emit_u32(&mut out, m.module.signatures.len() as u32);
    let ghost sigs = m@.module.signatures;
    proof {
        assert(sigs.take(0) =~= Seq::<FunctionTypeView>::empty());
        assert(out@ =~= spec_encode_u32(m@.module.signatures.len() as u32)
            + spec_encode_sig_table(sigs.take(0)));
    }
    let mut i: usize = 0;
    while i < m.module.signatures.len()
        invariant
            sigs == m@.module.signatures,
            sigs.len() < 0xffff_ffff,
            i <= sigs.len(),
            out@ == spec_encode_u32(m@.module.signatures.len() as u32) + spec_encode_sig_table(
                sigs.take(i as int),
            ),
            forall|j: int|
                0 <= j < i ==> (#[trigger] sigs[j]).params.len() < 0xffff_ffff
                    && sigs[j].results.len() < 0xffff_ffff,
        decreases m.module.signatures@.len() - i,
    {
        if !emit_value_types(&mut out, &m.module.signatures[i].params) {
            proof {
                assert(!(sigs[i as int].params.len() < 0xffff_ffff));
            }
            return None;
        }
        if !emit_value_types(&mut out, &m.module.signatures[i].results) {
            proof {
                assert(!(sigs[i as int].results.len() < 0xffff_ffff));
            }
            return None;
        }
        i = i + 1;
        proof {
            assert(sigs.take(i as int).drop_last() =~= sigs.take(i - 1));
            assert(sigs.take(i as int).last() == sigs[i - 1]);
            assert(sigs[i - 1] == m.module.signatures@[i - 1]@);
            assert(out@ =~= spec_encode_u32(m@.module.signatures.len() as u32)
                + spec_encode_sig_table(sigs.take(i as int)));
        }
    }
    proof {
        assert(sigs.take(sigs.len() as int) =~= sigs);
    }
    if !emit_function_bodies(&mut out, &m.functions) {
        return None;
    }
    if !emit_function_bodies(&mut out, &m.function_call_trampolines) {
        return None;
    }
    if !emit_function_bodies(&mut out, &m.dynamic_function_trampolines) {
        return None;
    }
    if m.custom_sections.len() >= 0xffff_ffff {
        return None;
    }
    let ghost head = out@;
    emit_u32(&mut out, m.custom_sections.len() as u32);
    let ghost cs = m@.custom_sections;
    proof {
        assert(cs.take(0) =~= Seq::<CustomSectionView>::empty());
        assert(out@ =~= head + spec_encode_u32(m@.custom_sections.len() as u32)
            + spec_encode_sections(cs.take(0)));
    }
    let mut j: usize = 0;
    while j < m.custom_sections.len()
        invariant
            cs == m@.custom_sections,
            cs.len() < 0xffff_ffff,
            j <= cs.len(),
            out@ == head + spec_encode_u32(m@.custom_sections.len() as u32)
                + spec_encode_sections(cs.take(j as int)),
            forall|k: int| 0 <= k < j ==> (#[trigger] cs[k]).bytes.len() < 0xffff_ffff,
        decreases m.custom_sections@.len() - j,
    {
        if !emit_custom_section(&mut out, &m.custom_sections[j]) {
            proof {
                assert(!(cs[j as int].bytes.len() < 0xffff_ffff));
            }
            return None;
        }
        j = j + 1;
        proof {
            assert(cs.take(j as int).drop_last() =~= cs.take(j - 1));
            assert(cs.take(j as int).last() == cs[j - 1]);
            assert(cs[j - 1] == m.custom_sections@[j - 1]@);
            assert(out@ =~= head + spec_encode_u32(m@.custom_sections.len() as u32)
                + spec_encode_sections(cs.take(j as int)));
        }
    }
    proof {
        assert(cs.take(cs.len() as int) =~= cs);
        assert(out@ =~= spec_encode_module(m@));
    }
    Some(out)
}

/// Deserializes a module: yields one whose call trampolines line up with
/// its signature table, or nothing when the bytes are not a well-formed
/// serialization.
pub fn decode_module(bytes: &Vec<u8>) -> (r: Option<SerializableModule>)
    ensures
        r matches Some(m) ==> module_wf(m@),
        r matches Some(m) ==> m@.module.signatures.len() < 0x1_0000_0000,
{
    let (nsig, mut p) = match read_u32(bytes, 0) {
        Some(x) => x,
        None => {
            return None;
        },
    };
    let nsig = nsig as usize;
    let mut signatures: Vec<FunctionType> = Vec::new();
    let mut i: usize = 0;
    while i < nsig
        invariant
            p <= bytes@.len(),
            i <= nsig,
            nsig < 0x1_0000_0000,
            signatures@.len() == i,
        decreases nsig - i,
    {
        let (params, p1) = match read_value_types(bytes, p) {
            Some(x) => x,
            None => {
                return None;
            },
        };
        let (results, p2) = match read_value_types(bytes, p1) {
            Some(x) => x,
            None => {
                return None;
            },
        };
        signatures.push(FunctionType { params, results });
        p = p2;
        i = i + 1;
    }
    let (functions, p3) = match read_function_bodies(bytes, p) {
        Some(x) => x,
        None => {
            return None;
        },
    };
    let (function_call_trampolines, p4) = match read_function_bodies(bytes, p3) {
        Some(x) => x,
        None => {
            return None;
        },
    };
    let (dynamic_function_trampolines, p5) = match read_function_bodies(bytes, p4) {
        Some(x) => x,
        None => {
            return None;
        },
    };
    let (nsec, mut q) = match read_u32(bytes, p5) {
        Some(x) => x,
        None => {
            return None;
        },
    };
    let nsec = nsec as usize;
    let mut custom_sections: Vec<CustomSection> = Vec::new();
    let mut j: usize = 0;
    while j < nsec
        invariant
            q <= bytes@.len(),
            j <= nsec,
            nsec < 0x1_0000_0000,
            custom_sections@.len() == j,
        decreases nsec - j,
    {
        match read_custom_section(bytes, q) {
            Some((s, q2)) => {
                custom_sections.push(s);
                q = q2;
            },
            None => {
                return None;
            },
        }
        j = j + 1;
    }
    if function_call_trampolines.len() != signatures.len() {
        return None;
    }
    let m = SerializableModule {
        module: ModuleInfo { signatures },
        functions,
        function_call_trampolines,
        dynamic_function_trampolines,
        custom_sections,
    };
    proof {
        assert(m@.function_call_trampolines.len() == m@.module.signatures.len());
    }
    Some(m)
}

impl FunctionBody {
    /// A copy with the same code bytes and unwind metadata.
    pub fn duplicate(&self) -> (r: Self)
        ensures
            r@ == self@,
    {
        FunctionBody {
            body: copy_vec(&self.body),
            unwind_info: match &self.unwind_info {
                Some(u) => Some(copy_vec(u)),
                None => None,
            },
        }
    }
}

impl CustomSection {
    /// A copy with the same protection and bytes.
    pub fn duplicate(&self) -> (r: Self)
        ensures
            r@ == self@,
    {
        CustomSection { protection: self.protection, bytes: copy_vec(&self.bytes) }
    }
}

} // verus!
