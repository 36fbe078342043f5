//! The linker: owns the class files, the global code region, and the
//! resolved runtime pool.
//!
//! Linking a class appends each Java method's instruction bytes to the
//! single append-only code region and records their position; the region
//! only ever grows, so a recorded `code_index` is never invalidated, and
//! the bytes at `code_index .. code_index + code_len` always equal the
//! method's original `Code` instructions (see
//! [`Runtime::lemma_code_pool_faithful`]).

use vstd::prelude::*;
use vstd::string::*;

use crate::classfile::{cp_utf8, spec_class_name, ClassFile, ConstantPool, MemberInfo};
use crate::error::VmError;
use crate::runtime_pool::{Class, Field, JavaMethod, Method, NativeMethod, RuntimePool};
use crate::table::Table;
use crate::value::{
    spec_parse_signature, spec_parse_type, types_view, Type, TypeView, Value,
};

verus! {

/// The resolved name of a member record: what its `name_index` points at.
pub open spec fn member_name(cf: ClassFile, m: crate::classfile::MemberInfo) -> Option<Seq<char>> {
    cp_utf8(cf, m.name_index as int)
}

/// The view of an optional type.
pub open spec fn opt_type_view(t: Option<Type>) -> Option<TypeView> {
    match t {
        Some(t) => Some(t@),
        None => None,
    }
}

/// The member's name and descriptor indices resolve to `Utf8` entries and
/// the descriptor parses — a method's as a signature, a field's as one
/// type.
pub open spec fn spec_member_resolvable(cf: ClassFile, m: MemberInfo, is_method: bool) -> bool {
    &&& cp_utf8(cf, m.name_index as int) is Some
    &&& (cp_utf8(cf, m.descriptor_index as int) matches Some(d) && (if is_method {
        spec_parse_signature(d) is Some
    } else {
        spec_parse_type(d, 0) is Some
    }))
}

/// Every method and field of the class file resolves and parses: exactly
/// the condition under which linking succeeds.
pub open spec fn spec_class_linkable(cf: ClassFile) -> bool {
    &&& (forall|i: int|
        0 <= i < cf.methods@.len() ==> spec_member_resolvable(cf, #[trigger] cf.methods@[i], true))
    &&& (forall|i: int|
        0 <= i < cf.fields@.len() ==> spec_member_resolvable(cf, #[trigger] cf.fields@[i], false))
}

/// The resolved record of a class-file method: a Java record exactly when
/// a `Code` attribute exists, carrying its `max_locals`, `max_stack` and
/// instruction length, and in either case the parameter and return types
/// parsed from the method's descriptor.
pub open spec fn spec_method_record_matches(cf: ClassFile, m: MemberInfo, rec: Method) -> bool {
    cp_utf8(cf, m.descriptor_index as int) matches Some(d) && (spec_parse_signature(d)
        matches Some(sig) && (match m.spec_code() {
        Some(ca) => rec matches Method::Java(jm) && jm.max_locals == ca.max_locals && jm.max_stack
            == ca.max_stack && jm.code_len == ca.instructions@.len() && types_view(jm.params@)
            == sig.0 && opt_type_view(jm.return_ty) == sig.1,
        None => rec matches Method::Native(nm) && types_view(nm.params@) == sig.0 && opt_type_view(
            nm.return_ty,
        ) == sig.1,
    }))
}

/// The resolved record of a class-file field: its type is the parsed
/// descriptor and its cell starts `Uninit`.
pub open spec fn spec_field_record_matches(cf: ClassFile, m: MemberInfo, rec: Field) -> bool {
    cp_utf8(cf, m.descriptor_index as int) matches Some(d) && (spec_parse_type(d, 0)
        matches Some(p) && rec.ty@ == p.0 && rec.value is Uninit)
}

/// No later member of `members` bears the same name as member `i`; on
/// duplicate names the later definition wins a table slot.
pub open spec fn spec_last_named(members: Seq<MemberInfo>, cf: ClassFile, i: int) -> bool {
    forall|j: int|
        i < j < members.len() ==> member_name(cf, #[trigger] members[j]) != member_name(
            cf,
            members[i],
        )
}

/// The class file has a `main` method with bytecode: its last method
/// named `main` carries a `Code` attribute, so linking yields a Java
/// `main` record.
pub open spec fn spec_has_java_main(cf: ClassFile) -> bool {
    exists|mi: int|
        {
            &&& 0 <= mi < cf.methods@.len()
            &&& member_name(cf, #[trigger] cf.methods@[mi]) == Some("main"@)
            &&& spec_last_named(cf.methods@, cf, mi)
            &&& cf.methods@[mi].spec_code() is Some
        }
}

/// Every named member has a last occurrence of its name.
pub proof fn lemma_exists_last_named(cf: ClassFile, members: Seq<MemberInfo>, mi: int)
    requires
        0 <= mi < members.len(),
    ensures
        exists|mj: int|
            {
                &&& mi <= mj < members.len()
                &&& member_name(cf, #[trigger] members[mj]) == member_name(cf, members[mi])
                &&& spec_last_named(members, cf, mj)
            },
    decreases members.len() - mi,
{
    if spec_last_named(members, cf, mi) {
        assert(member_name(cf, members[mi]) == member_name(cf, members[mi]));
    } else {
        let mj = choose|mj: int|
            mi < mj < members.len() && member_name(cf, #[trigger] members[mj]) == member_name(
                cf,
                members[mi],
            );
        lemma_exists_last_named(cf, members, mj);
        let mk = choose|mk: int|
            {
                &&& mj <= mk < members.len()
                &&& member_name(cf, #[trigger] members[mk]) == member_name(cf, members[mj])
                &&& spec_last_named(members, cf, mk)
            };
        assert(mi <= mk < members.len() && member_name(cf, members[mk]) == member_name(
            cf,
            members[mi],
        ) && spec_last_named(members, cf, mk));
    }
}

/// Against a class linked from `cf` (the three linking facts below), the
/// `main` slot holds a Java record exactly when the class file has a Java
/// `main`.
pub proof fn lemma_main_record(cf: ClassFile, c: Class)
    requires
        forall|mi: int|
            0 <= mi < cf.methods@.len() ==> (member_name(cf, #[trigger] cf.methods@[mi]) matches
                Some(mn) && c.methods@.contains_key(mn)),
        forall|mi: int|
            (0 <= mi < cf.methods@.len() && spec_last_named(cf.methods@, cf, mi)) ==> (member_name(
                cf,
                #[trigger] cf.methods@[mi],
            ) matches Some(mn) && spec_method_record_matches(cf, cf.methods@[mi], c.methods@[mn])),
        forall|mn: Seq<char>| #[trigger]
            c.methods@.contains_key(mn) ==> exists|mi: int|
                0 <= mi < cf.methods@.len() && member_name(cf, #[trigger] cf.methods@[mi]) == Some(
                    mn,
                ),
    ensures
        spec_has_java_main(cf) <==> (c.methods@.contains_key("main"@) && c.methods@["main"@]
            is Java),
{
    if spec_has_java_main(cf) {
        let mi = choose|mi: int|
            {
                &&& 0 <= mi < cf.methods@.len()
                &&& member_name(cf, #[trigger] cf.methods@[mi]) == Some("main"@)
                &&& spec_last_named(cf.methods@, cf, mi)
                &&& cf.methods@[mi].spec_code() is Some
            };
        assert(c.methods@.contains_key("main"@));
        assert(spec_method_record_matches(cf, cf.methods@[mi], c.methods@["main"@]));
    }
    if c.methods@.contains_key("main"@) && c.methods@["main"@] is Java {
        let mi = choose|mi: int|
            0 <= mi < cf.methods@.len() && member_name(cf, #[trigger] cf.methods@[mi]) == Some(
                "main"@,
            );
        lemma_exists_last_named(cf, cf.methods@, mi);
        let mj = choose|mj: int|
            {
                &&& mi <= mj < cf.methods@.len()
                &&& member_name(cf, #[trigger] cf.methods@[mj]) == member_name(cf, cf.methods@[mi])
                &&& spec_last_named(cf.methods@, cf, mj)
            };
        assert(spec_method_record_matches(cf, cf.methods@[mj], c.methods@["main"@]));
        assert(cf.methods@[mj].spec_code() is Some);
        assert(spec_has_java_main(cf));
    }
}

/// One resolved method record truly reflects a class-file method of its
/// name: a Java record's span in the code region holds exactly that
/// method's instruction bytes.
pub open spec fn spec_method_entry_linked(
    code: Seq<u8>,
    cf: ClassFile,
    m: Method,
    mn: Seq<char>,
) -> bool {
    match m {
        Method::Java(jm) => {
            &&& jm.code_index + jm.code_len <= code.len()
            &&& exists|mi: int|
                {
                    &&& 0 <= mi < cf.methods@.len()
                    &&& member_name(cf, #[trigger] cf.methods@[mi]) == Some(mn)
                    &&& match cf.methods@[mi].spec_code() {
                        Some(ca) => ca.instructions@.len() == jm.code_len && code.subrange(
                            jm.code_index as int,
                            jm.code_index + jm.code_len,
                        ) == ca.instructions@,
                        None => false,
                    }
                }
        },
        Method::Native(_) => true,
    }
}

/// Every resolved Java method carries its class-file method's instruction
/// bytes at its recorded place in the code region.
pub open spec fn methods_linked(code: Seq<u8>, cf: ClassFile, methods: Map<Seq<char>, Method>) -> bool {
    forall|mn: Seq<char>| #[trigger] methods.contains_key(mn) ==> spec_method_entry_linked(
        code,
        cf,
        methods[mn],
        mn,
    )
}

/// A span of a sequence reads the same out of any extension of it.
pub proof fn lemma_subrange_of_prefix(s1: Seq<u8>, s2: Seq<u8>, a: int, b: int)
    requires
        0 <= a <= b <= s1.len(),
        s1.len() <= s2.len(),
        s2.subrange(0, s1.len() as int) == s1,
    ensures
        s2.subrange(a, b) == s1.subrange(a, b),
{
    assert forall|k: int| 0 <= k < b - a implies #[trigger] s2.subrange(a, b)[k] == s1.subrange(
        a,
        b,
    )[k] by {
        assert(s1[a + k] == s2.subrange(0, s1.len() as int)[a + k]);
    }
    assert(s2.subrange(a, b) =~= s1.subrange(a, b));
}

/// Linked-ness only speaks of recorded spans, so growing the code region
/// on the right preserves it.
pub proof fn lemma_methods_linked_extend(
    code1: Seq<u8>,
    code2: Seq<u8>,
    cf: ClassFile,
    methods: Map<Seq<char>, Method>,
)
    requires
        methods_linked(code1, cf, methods),
        code1.len() <= code2.len(),
        code2.subrange(0, code1.len() as int) == code1,
    ensures
        methods_linked(code2, cf, methods),
{
    assert forall|mn: Seq<char>| #[trigger]
        methods.contains_key(mn) implies spec_method_entry_linked(code2, cf, methods[mn], mn) by {
        match methods[mn] {
            Method::Java(jm) => {
                let mi = choose|mi: int|
                    {
                        &&& 0 <= mi < cf.methods@.len()
                        &&& member_name(cf, #[trigger] cf.methods@[mi]) == Some(mn)
                        &&& match cf.methods@[mi].spec_code() {
                            Some(ca) => ca.instructions@.len() == jm.code_len && code1.subrange(
                                jm.code_index as int,
                                jm.code_index + jm.code_len,
                            ) == ca.instructions@,
                            None => false,
                        }
                    };
                lemma_subrange_of_prefix(
                    code1,
                    code2,
                    jm.code_index as int,
                    jm.code_index + jm.code_len,
                );
                assert(member_name(cf, cf.methods@[mi]) == Some(mn));
            },
            Method::Native(_) => {},
        }
    }
}

/// What a whole linked class promises about the code region.
pub open spec fn class_linked(code: Seq<u8>, cf: ClassFile, c: Class) -> bool {
    methods_linked(code, cf, c.methods@)
}

/// The owning class name a `FieldRef`, `MethodRef` or `InterfaceMethodRef`
/// at pool index `index` resolves to.
pub open spec fn spec_ref_class_name(cf: ClassFile, index: u16) -> Option<Seq<char>> {
    if 0 <= index < cf.constant_pool@.len() {
        match cf.constant_pool@[index as int] {
            ConstantPool::FieldRef { class_index, .. } => spec_class_entry_name(cf, class_index),
            ConstantPool::MethodRef { class_index, .. } => spec_class_entry_name(cf, class_index),
            ConstantPool::InterfaceMethodRef { class_index, .. } => spec_class_entry_name(
                cf,
                class_index,
            ),
            _ => None,
        }
    } else {
        None
    }
}

/// The name a `Class` entry at pool index `index` resolves to.
pub open spec fn spec_class_entry_name(cf: ClassFile, index: u16) -> Option<Seq<char>> {
    if 0 <= index < cf.constant_pool@.len() {
        match cf.constant_pool@[index as int] {
            ConstantPool::Class { name_index } => cp_utf8(cf, name_index as int),
            _ => None,
        }
    } else {
        None
    }
}

/// The `(name, descriptor)` strings a `NameAndType` entry at pool index
/// `index` resolves to.
pub open spec fn spec_name_and_type(cf: ClassFile, index: u16) -> Option<(Seq<char>, Seq<char>)> {
    if 0 <= index < cf.constant_pool@.len() {
        match cf.constant_pool@[index as int] {
            ConstantPool::NameAndType { name_index, descriptor_index } => {
                match (cp_utf8(cf, name_index as int), cp_utf8(cf, descriptor_index as int)) {
                    (Some(n), Some(d)) => Some((n, d)),
                    _ => None,
                }
            },
            _ => None,
        }
    } else {
        None
    }
}

/// The `(owner class name, member name)` a member reference at pool index
/// `index` of `cf` resolves to, following `class_index` and
/// `name_and_type_index`.
pub open spec fn spec_member_ref(cf: ClassFile, index: u16) -> Option<(Seq<char>, Seq<char>)> {
    if 0 <= index < cf.constant_pool@.len() {
        match cf.constant_pool@[index as int] {
            ConstantPool::FieldRef { class_index, name_and_type_index } => spec_member_ref_parts(
                cf,
                class_index,
                name_and_type_index,
            ),
            ConstantPool::MethodRef { class_index, name_and_type_index } => spec_member_ref_parts(
                cf,
                class_index,
                name_and_type_index,
            ),
            ConstantPool::InterfaceMethodRef {
                class_index,
                name_and_type_index,
            } => spec_member_ref_parts(cf, class_index, name_and_type_index),
            _ => None,
        }
    } else {
        None
    }
}

pub open spec fn spec_member_ref_parts(cf: ClassFile, class_index: u16, nat_index: u16) -> Option<
    (Seq<char>, Seq<char>),
> {
    match (spec_class_entry_name(cf, class_index), spec_name_and_type(cf, nat_index)) {
        (Some(cn), Some((n, _d))) => Some((cn, n)),
        _ => None,
    }
}

/// The gathered record at `pending[j]` faithfully reflects class-file
/// method `mi`.
spec fn pending_method_matches(cf: ClassFile, pm: PendingMethod, mi: int) -> bool {
    &&& 0 <= mi < cf.methods@.len()
    &&& member_name(cf, cf.methods@[mi]) == Some(pm.name@)
    &&& (cp_utf8(cf, cf.methods@[mi].descriptor_index as int) matches Some(d)
        && spec_parse_signature(d) == Some(
        (types_view(pm.params@), opt_type_view(pm.return_ty)),
    ))
    &&& match pm.code {
        Some((ml, ms, bytes)) => match cf.methods@[mi].spec_code() {
            Some(ca) => ca.max_locals == ml && ca.max_stack == ms && ca.instructions@ == bytes@,
            None => false,
        },
        None => cf.methods@[mi].spec_code() is None,
    }
}

/// The gathered record faithfully reflects class-file field `fi`.
spec fn pending_field_matches(cf: ClassFile, pf: PendingField, fi: int) -> bool {
    &&& 0 <= fi < cf.fields@.len()
    &&& member_name(cf, cf.fields@[fi]) == Some(pf.name@)
    &&& (cp_utf8(cf, cf.fields@[fi].descriptor_index as int) matches Some(d) && (spec_parse_type(
        d,
        0,
    ) matches Some(pp) && pf.ty@ == pp.0))
}

/// A method record gathered from the class file, before the commit that
/// assigns code indices.
struct PendingMethod {
    name: String,
    /// `max_locals`, `max_stack` and the instruction bytes, for a Java
    /// method; nothing for a native method.
    code: Option<(u16, u16, Vec<u8>)>,
    params: Vec<Type>,
    return_ty: Option<Type>,
}

/// A field record gathered from the class file, before the commit.
struct PendingField {
    name: String,
    ty: Type,
}

/// The two runtime pools list the same classes, with the same method
/// records and the same field cells.
pub open spec fn pool_preserved(
    a: Map<Seq<char>, RuntimePool>,
    b: Map<Seq<char>, RuntimePool>,
) -> bool {
    &&& forall|k: Seq<char>| #[trigger] a.contains_key(k) <==> #[trigger] b.contains_key(k)
    &&& forall|k: Seq<char>| #[trigger] a.contains_key(k) ==> match (a[k], b[k]) {
        (RuntimePool::Class(ca), RuntimePool::Class(cb)) => cb.methods@ == ca.methods@
            && cb.fields@ == ca.fields@,
    }
}

/// What became of a static-field store.
#[derive(Debug, Clone, Copy, PartialEq, Eq, Structural)]
pub enum SetStaticOutcome {
    /// The cell now holds the value.
    Written,
    /// The owning class or the field is not in the runtime pool.
    NoSuchField,
    /// The value's variant does not match the field's declared type.
    TypeMismatch,
}

/// An exact copy of a byte vector.
fn clone_bytes(v: &Vec<u8>) -> (r: Vec<u8>)
    ensures
        r@ == v@,
{
    let mut r: Vec<u8> = Vec::new();
    let n = v.len();
    let mut i: usize = 0;
    while i < n
        invariant
            i <= n,
            n == v@.len(),
            r@ == v@.subrange(0, i as int),
        decreases n - i,
    {
        r.push(v[i]);
        proof {
            assert(r@ =~= v@.subrange(0, i + 1));
        }
        i = i + 1;
    }
    proof {
        assert(v@.subrange(0, n as int) =~= v@);
    }
    r
}

/// The linker state: loaded class files, the global code region, the
/// resolved per-class records, and the set of initialized classes.
pub struct Runtime {
    initialized: Table<bool>,
    class_files: Table<ClassFile>,
    code_pool: Vec<u8>,
    runtime_pool: Table<RuntimePool>,
}

impl Runtime {
    /// The loaded class files, by name.
    pub closed spec fn class_files_view(self) -> Map<Seq<char>, ClassFile> {
        self.class_files@
    }

    /// The resolved runtime pool, by class name.
    pub closed spec fn pool_view(self) -> Map<Seq<char>, RuntimePool> {
        self.runtime_pool@
    }

    /// The global code region.
    pub closed spec fn code(self) -> Seq<u8> {
        self.code_pool@
    }

    /// Whether the named class has completed (or was found to need no)
    /// initialization.
    pub open spec fn spec_initialized(self, name: Seq<char>) -> bool {
        self.initialized_view().contains_key(name)
    }

    pub closed spec fn initialized_view(self) -> Map<Seq<char>, bool> {
        self.initialized@
    }

    /// Well-formedness: every resolved class is backed by a loaded class
    /// file and its Java methods' bytes sit unchanged in the code region.
    pub closed spec fn wf(self) -> bool {
        &&& self.class_files.wf()
        &&& self.runtime_pool.wf()
        &&& self.initialized.wf()
        &&& forall|cn: Seq<char>| #[trigger] self.runtime_pool@.contains_key(cn) ==> {
            &&& self.class_files@.contains_key(cn)
            &&& match self.runtime_pool@[cn] {
                RuntimePool::Class(c) => c.wf() && class_linked(
                    self.code_pool@,
                    self.class_files@[cn],
                    c,
                ),
            }
        }
    }

    /// The code region stays faithful to the class files: every linked
    /// Java method's recorded span in the code region holds exactly the
    /// instruction bytes of a method of that name in the owning class
    /// file.
    pub proof fn lemma_code_pool_faithful(self)
        requires
            self.wf(),
        ensures
            forall|cn: Seq<char>| #[trigger] self.pool_view().contains_key(cn) ==> {
                &&& self.class_files_view().contains_key(cn)
                &&& match self.pool_view()[cn] {
                    RuntimePool::Class(c) => class_linked(
                        self.code(),
                        self.class_files_view()[cn],
                        c,
                    ),
                }
            },
    {
    }

    /// A runtime over the given class files, each registered under its own
    /// declared name; nothing is linked or initialized yet. Fails when a
    /// class file's own name does not resolve.
    #[verifier::loop_isolation(false)]
    pub fn new(class_files: Vec<ClassFile>) -> (r: Result<Runtime, VmError>)
        ensures
            r is Ok <==> (forall|i: int|
                0 <= i < class_files@.len() ==> spec_class_name(#[trigger] class_files@[i])
                    is Some),
            r matches Ok(rt) ==> {
                &&& rt.wf()
                &&& rt.code() == Seq::<u8>::empty()
                &&& rt.pool_view() == Map::<Seq<char>, RuntimePool>::empty()
                &&& forall|n: Seq<char>| !rt.spec_initialized(n)
                &&& forall|i: int|
                    0 <= i < class_files@.len() ==> (spec_class_name(#[trigger] class_files@[i])
                        matches Some(n) && rt.class_files_view().contains_key(n))
                &&& forall|i: int|
                    (0 <= i < class_files@.len() && (forall|j: int|
                        i < j < class_files@.len() ==> spec_class_name(#[trigger] class_files@[j])
                            != spec_class_name(class_files@[i]))) ==> (spec_class_name(
                        #[trigger] class_files@[i],
                    ) matches Some(n) && rt.class_files_view()[n] == class_files@[i])
                &&& forall|n: Seq<char>| #[trigger]
                    rt.class_files_view().contains_key(n) ==> exists|i: int|
                        0 <= i < class_files@.len() && spec_class_name(#[trigger] class_files@[i])
                            == Some(n)
            },
    {
        let ghost orig = class_files@;
        let mut files = class_files;
        let mut table: Table<ClassFile> = Table::new();
        proof {
            assert(orig.subrange(0, orig.len() as int) =~= orig);
        }
        while files.len() > 0
            invariant
                table.wf(),
                files@.len() <= orig.len(),
                files@ == orig.subrange(orig.len() - files@.len(), orig.len() as int),
                forall|i: int|
                    0 <= i < orig.len() - files@.len() ==> (spec_class_name(#[trigger] orig[i])
                        matches Some(n) && table@.contains_key(n)),
                forall|i: int|
                    (0 <= i < orig.len() - files@.len() && (forall|j: int|
                        i < j < orig.len() - files@.len() ==> spec_class_name(#[trigger] orig[j])
                            != spec_class_name(orig[i]))) ==> (spec_class_name(#[trigger] orig[i])
                        matches Some(n) && table@[n] == orig[i]),
                forall|n: Seq<char>| #[trigger]
                    table@.contains_key(n) ==> exists|i: int|
                        0 <= i < orig.len() - files@.len() && spec_class_name(#[trigger] orig[i])
                            == Some(n),
            decreases files@.len(),
        {
            let ghost done = orig.len() - files@.len();
            let ghost pre = files@;
            let cf = files.remove(0);
            proof {
                assert(orig[done as int] == cf);
                assert(files@ =~= orig.subrange(orig.len() - files@.len(), orig.len() as int));
            }
            let name = match cf.class_name() {
                Ok(s) => s.clone(),
                Err(e) => {
                    proof {
                        assert(spec_class_name(orig[done as int]) is None);
                    }
                    return Err(e);
                },
            };
            let ghost pre_table = table@;
            table.insert(name, cf);
            proof {
                assert(spec_class_name(orig[done as int]) == Some(name@));
                assert forall|i: int|
                    (0 <= i < done + 1 && (forall|j: int|
                        i < j < done + 1 ==> spec_class_name(#[trigger] orig[j])
                            != spec_class_name(orig[i]))) implies (spec_class_name(
                    #[trigger] orig[i],
                ) matches Some(n2) && table@[n2] == orig[i]) by {
                    if i < done {
                        assert(spec_class_name(orig[done as int]) != spec_class_name(orig[i]));
                        assert(forall|j: int|
                            i < j < done ==> spec_class_name(#[trigger] orig[j])
                                != spec_class_name(orig[i]));
                    }
                }
                assert forall|n2: Seq<char>| #[trigger]
                    table@.contains_key(n2) implies exists|i: int|
                    0 <= i < done + 1 && spec_class_name(#[trigger] orig[i]) == Some(n2) by {
                    if n2 == name@ {
                        assert(spec_class_name(orig[done as int]) == Some(n2));
                    } else {
                        assert(pre_table.contains_key(n2));
                    }
                }
            }
        }
        let rt = Runtime {
            initialized: Table::new(),
            class_files: table,
            code_pool: Vec::new(),
            runtime_pool: Table::new(),
        };
        proof {
            assert(rt.wf());
        }
        Ok(rt)
    }

    /// The whole code region.
    pub fn instructions(&self) -> (r: &Vec<u8>)
        ensures
            r@ == self.code(),
    {
        &self.code_pool
    }

    /// Verifies that the named class is among the loaded class files.
    pub fn load_class(&mut self, class: &String) -> (r: Result<(), VmError>)
        ensures
            *final(self) == *old(self),
            r is Ok <==> old(self).class_files_view().contains_key(class@),
            r matches Err(e) ==> e matches VmError::ClassNotFound(n) && n@ == class@,
    {
        if self.class_files.contains_key(class) {
            Ok(())
        } else {
            Err(VmError::ClassNotFound(class.clone()))
        }
    }

    /// Links the named class: parses every method's descriptor, appends
    /// each Java method's instruction bytes to the code region recording
    /// where they went, resolves every field to an `Uninit` cell, and
    /// stores the class in the runtime pool. The code region only grows,
    /// and nothing else changes.
    #[verifier::loop_isolation(false)]
    #[verifier::rlimit(100)]
    #[verifier::spinoff_prover]
    pub fn link_class(&mut self, class_name: &String) -> (r: Result<String, VmError>)
        requires
            old(self).wf(),
        ensures
            final(self).wf(),
            final(self).class_files_view() == old(self).class_files_view(),
            final(self).initialized_view() == old(self).initialized_view(),
            !old(self).class_files_view().contains_key(class_name@) ==> (r matches Err(e)
                && e matches VmError::ClassNotFound(nm) && nm@ == class_name@),
            r is Ok <==> (old(self).class_files_view().contains_key(class_name@)
                && spec_class_linkable(old(self).class_files_view()[class_name@])),
            r matches Err(_) ==> *final(self) == *old(self),
            r matches Ok(n) ==> {
                &&& n@ == class_name@
                &&& old(self).class_files_view().contains_key(class_name@)
                &&& final(self).pool_view().contains_key(class_name@)
                &&& final(self).pool_view() == old(self).pool_view().insert(
                    class_name@,
                    final(self).pool_view()[class_name@],
                )
                &&& old(self).code().len() <= final(self).code().len()
                &&& final(self).code().subrange(0, old(self).code().len() as int) == old(
                    self,
                ).code()
                &&& match final(self).pool_view()[class_name@] {
                    RuntimePool::Class(c) => {
                        let cf = old(self).class_files_view()[class_name@];
                        &&& forall|mi: int|
                            0 <= mi < cf.methods@.len() ==> (member_name(
                                cf,
                                #[trigger] cf.methods@[mi],
                            ) matches Some(mn) && c.methods@.contains_key(mn))
                        &&& forall|fi: int|
                            0 <= fi < cf.fields@.len() ==> (member_name(
                                cf,
                                #[trigger] cf.fields@[fi],
                            ) matches Some(fname) && c.fields@.contains_key(fname)
                                && c.fields@[fname].value is Uninit)
                        &&& forall|mi: int|
                            (0 <= mi < cf.methods@.len() && spec_last_named(
                                cf.methods@,
                                cf,
                                mi,
                            )) ==> (member_name(cf, #[trigger] cf.methods@[mi]) matches Some(mn)
                                && spec_method_record_matches(
                                cf,
                                cf.methods@[mi],
                                c.methods@[mn],
                            ))
                        &&& forall|fi: int|
                            (0 <= fi < cf.fields@.len() && spec_last_named(
                                cf.fields@,
                                cf,
                                fi,
                            )) ==> (member_name(cf, #[trigger] cf.fields@[fi]) matches Some(fname)
                                && spec_field_record_matches(cf, cf.fields@[fi], c.fields@[fname]))
                        &&& forall|mn: Seq<char>| #[trigger]
                            c.methods@.contains_key(mn) ==> exists|mi: int|
                                0 <= mi < cf.methods@.len() && member_name(
                                    cf,
                                    #[trigger] cf.methods@[mi],
                                ) == Some(mn)
                        &&& forall|fname: Seq<char>| #[trigger]
                            c.fields@.contains_key(fname) ==> exists|fi: int|
                                0 <= fi < cf.fields@.len() && member_name(
                                    cf,
                                    #[trigger] cf.fields@[fi],
                                ) == Some(fname)
                        &&& forall|mn: Seq<char>| #[trigger]
                            c.methods@.contains_key(mn) ==> (c.methods@[mn] matches Method::Java(
                                jm,
                            ) ==> old(self).code().len() <= jm.code_index)
                        &&& forall|mi: int, mj: int|
                            (0 <= mi < mj < cf.methods@.len() && spec_last_named(
                                cf.methods@,
                                cf,
                                mi,
                            ) && spec_last_named(cf.methods@, cf, mj)) ==> (member_name(
                                cf,
                                #[trigger] cf.methods@[mi],
                            ) matches Some(ni) ==> (member_name(cf, #[trigger] cf.methods@[mj])
                                matches Some(nj) ==> (c.methods@[ni] matches Method::Java(ri)
                                ==> (c.methods@[nj] matches Method::Java(rj) ==> ri.code_index
                                + ri.code_len <= rj.code_index))))
                    },
                }
            },
    {
        let ghost old_self = *old(self);
        if !self.class_files.contains_key(class_name) {
            return Err(VmError::ClassNotFound(class_name.clone()));
        }
        let ghost cfg = self.class_files@[class_name@];
        // Gather methods, last first, so the commit below can pop them in
        // declaration order.
        let n_methods = match self.class_files.get(class_name) {
            Some(cf) => cf.methods.len(),
            None => {
                proof {
                    assert(false);
                }
                return Err(VmError::ClassNotFound(class_name.clone()));
            },
        };
        let mut pending: Vec<PendingMethod> = Vec::new();
        let mut mi = n_methods;
        while mi > 0
            invariant
                *self == *old(self),
                mi <= n_methods,
                pending@.len() == n_methods - mi,
                forall|j: int|
                    0 <= j < pending@.len() ==> pending_method_matches(
                        cfg,
                        #[trigger] pending@[j],
                        n_methods - 1 - j,
                    ),
                forall|j: int|
                    mi <= j < n_methods ==> spec_member_resolvable(
                        cfg,
                        #[trigger] cfg.methods@[j],
                        true,
                    ),
            decreases mi,
        {
            mi = mi - 1;
            let cf = match self.class_files.get(class_name) {
                Some(cf) => cf,
                None => {
                    proof {
                        assert(false);
                    }
                    return Err(VmError::ClassNotFound(class_name.clone()));
                },
            };
            let m = &cf.methods[mi];
            let name = match cf.get_str(m.name_index as usize) {
                Ok(s) => s.clone(),
                Err(e) => {
                    proof {
                        assert(!spec_member_resolvable(cfg, cfg.methods@[mi as int], true));
                    }
                    return Err(e);
                },
            };
            let desc = match cf.get_str(m.descriptor_index as usize) {
                Ok(s) => s,
                Err(e) => {
                    proof {
                        assert(!spec_member_resolvable(cfg, cfg.methods@[mi as int], true));
                    }
                    return Err(e);
                },
            };
            let (params, return_ty) = match Type::parse_signature(desc.as_str()) {
                Ok(p) => p,
                Err(e) => {
                    proof {
                        assert(!spec_member_resolvable(cfg, cfg.methods@[mi as int], true));
                    }
                    return Err(e);
                },
            };
            let code = match m.code() {
                Some(c) => Some((c.max_locals, c.max_stack, clone_bytes(&c.instructions))),
                None => None,
            };
            pending.push(PendingMethod { name, code, params, return_ty });
        }
        // Gather fields the same way.
        let n_fields = match self.class_files.get(class_name) {
            Some(cf) => cf.fields.len(),
            None => {
                proof {
                    assert(false);
                }
                return Err(VmError::ClassNotFound(class_name.clone()));
            },
        };
        let mut pending_fields: Vec<PendingField> = Vec::new();
        let mut fi = n_fields;
        while fi > 0
            invariant
                *self == *old(self),
                fi <= n_fields,
                n_methods == cfg.methods@.len(),
                pending_fields@.len() == n_fields - fi,
                forall|j: int|
                    0 <= j < pending_fields@.len() ==> pending_field_matches(
                        cfg,
                        #[trigger] pending_fields@[j],
                        n_fields - 1 - j,
                    ),
                forall|j: int|
                    fi <= j < n_fields ==> spec_member_resolvable(
                        cfg,
                        #[trigger] cfg.fields@[j],
                        false,
                    ),
                forall|j: int|
                    0 <= j < n_methods ==> spec_member_resolvable(
                        cfg,
                        #[trigger] cfg.methods@[j],
                        true,
                    ),
            decreases fi,
        {
            fi = fi - 1;
            let cf = match self.class_files.get(class_name) {
                Some(cf) => cf,
                None => {
                    proof {
                        assert(false);
                    }
                    return Err(VmError::ClassNotFound(class_name.clone()));
                },
            };
            let f = &cf.fields[fi];
            let name = match cf.get_str(f.name_index as usize) {
                Ok(s) => s.clone(),
                Err(e) => {
                    proof {
                        assert(!spec_member_resolvable(cfg, cfg.fields@[fi as int], false));
                    }
                    return Err(e);
                },
            };
            let desc = match cf.get_str(f.descriptor_index as usize) {
                Ok(s) => s,
                Err(e) => {
                    proof {
                        assert(!spec_member_resolvable(cfg, cfg.fields@[fi as int], false));
                    }
                    return Err(e);
                },
            };
            let ty = match Type::from_descriptor(desc.as_str()) {
                Ok(t) => t,
                Err(e) => {
                    proof {
                        assert(!spec_member_resolvable(cfg, cfg.fields@[fi as int], false));
                    }
                    return Err(e);
                },
            };
            pending_fields.push(PendingField { name, ty });
        }
        // Commit. Nothing below can fail, so the linker never publishes a
        // half-linked class.
        let ghost code0 = self.code_pool@;
        let mut methods_t: Table<Method> = Table::new();
        while pending.len() > 0
            invariant
                methods_t.wf(),
                self.class_files == old(self).class_files,
                self.initialized == old(self).initialized,
                self.runtime_pool == old(self).runtime_pool,
                code0 == old(self).code_pool@,
                self.code_pool@.len() >= code0.len(),
                self.code_pool@.subrange(0, code0.len() as int) == code0,
                pending@.len() <= n_methods,
                n_methods == cfg.methods@.len(),
                n_fields == cfg.fields@.len(),
                forall|j: int|
                    0 <= j < pending@.len() ==> pending_method_matches(
                        cfg,
                        #[trigger] pending@[j],
                        n_methods - 1 - j,
                    ),
                methods_linked(self.code_pool@, cfg, methods_t@),
                forall|k: int|
                    0 <= k < n_methods - pending@.len() ==> (member_name(
                        cfg,
                        #[trigger] cfg.methods@[k],
                    ) matches Some(mn) && methods_t@.contains_key(mn)),
                forall|k: int|
                    (0 <= k < n_methods - pending@.len() && (forall|j: int|
                        k < j < n_methods - pending@.len() ==> member_name(
                            cfg,
                            #[trigger] cfg.methods@[j],
                        ) != member_name(cfg, cfg.methods@[k]))) ==> (member_name(
                        cfg,
                        #[trigger] cfg.methods@[k],
                    ) matches Some(mn) && spec_method_record_matches(
                        cfg,
                        cfg.methods@[k],
                        methods_t@[mn],
                    )),
                forall|mn: Seq<char>| #[trigger]
                    methods_t@.contains_key(mn) ==> exists|k: int|
                        0 <= k < n_methods - pending@.len() && member_name(
                            cfg,
                            #[trigger] cfg.methods@[k],
                        ) == Some(mn),
                forall|mn: Seq<char>| #[trigger]
                    methods_t@.contains_key(mn) ==> (methods_t@[mn] matches Method::Java(jm)
                        ==> code0.len() <= jm.code_index && jm.code_index + jm.code_len
                        <= self.code_pool@.len()),
                forall|k1: int, k2: int|
                    (0 <= k1 < k2 < n_methods - pending@.len() && (forall|j: int|
                        k1 < j < n_methods - pending@.len() ==> member_name(
                            cfg,
                            #[trigger] cfg.methods@[j],
                        ) != member_name(cfg, cfg.methods@[k1])) && (forall|j: int|
                        k2 < j < n_methods - pending@.len() ==> member_name(
                            cfg,
                            #[trigger] cfg.methods@[j],
                        ) != member_name(cfg, cfg.methods@[k2]))) ==> (member_name(
                        cfg,
                        #[trigger] cfg.methods@[k1],
                    ) matches Some(n1) ==> (member_name(cfg, #[trigger] cfg.methods@[k2])
                        matches Some(n2) ==> (methods_t@[n1] matches Method::Java(r1)
                        ==> (methods_t@[n2] matches Method::Java(r2) ==> r1.code_index
                        + r1.code_len <= r2.code_index)))),
            decreases pending@.len(),
        {
            let ghost done = n_methods - pending@.len();
            let pm = match pending.pop() {
                Some(pm) => pm,
                None => {
                    proof {
                        assert(false);
                    }
                    return Err(VmError::ClassNotFound(class_name.clone()));
                },
            };
            proof {
                assert(pending_method_matches(cfg, pm, done));
            }
            match pm.code {
                Some((max_locals, max_stack, bytes)) => {
                    let code_index = self.code_pool.len();
                    let code_len = bytes.len();
                    let ghost pre_code = self.code_pool@;
                    let mut b = bytes;
                    let ghost bv = b@;
                    self.code_pool.append(&mut b);
                    proof {
                        assert(self.code_pool@.subrange(0, pre_code.len() as int) =~= pre_code);
                        lemma_subrange_of_prefix(pre_code, self.code_pool@, 0, code0.len() as int);
                        lemma_methods_linked_extend(pre_code, self.code_pool@, cfg, methods_t@);
                    }
                    let jm = JavaMethod {
                        max_locals,
                        max_stack,
                        code_index,
                        code_len,
                        params: pm.params,
                        return_ty: pm.return_ty,
                    };
                    let ghost pre_methods = methods_t@;
                    methods_t.insert(pm.name, Method::Java(jm));
                    proof {
                        assert(self.code_pool@.subrange(code_index as int, code_index + code_len)
                            =~= bv);
                        assert forall|mn: Seq<char>| #[trigger]
                            methods_t@.contains_key(mn) implies spec_method_entry_linked(
                            self.code_pool@,
                            cfg,
                            methods_t@[mn],
                            mn,
                        ) by {
                            if mn == pm.name@ {
                                assert(member_name(cfg, cfg.methods@[done]) == Some(mn));
                                assert(match cfg.methods@[done].spec_code() {
                                    Some(ca) => ca.instructions@.len() == jm.code_len
                                        && self.code_pool@.subrange(
                                        jm.code_index as int,
                                        jm.code_index + jm.code_len,
                                    ) == ca.instructions@,
                                    None => false,
                                });
                                assert(spec_method_entry_linked(
                                    self.code_pool@,
                                    cfg,
                                    Method::Java(jm),
                                    mn,
                                ));
                            } else {
                                assert(pre_methods.contains_key(mn));
                                assert(methods_t@[mn] == pre_methods[mn]);
                            }
                        }
                        assert(spec_method_record_matches(
                            cfg,
                            cfg.methods@[done],
                            methods_t@[pm.name@],
                        ));
                        assert forall|k: int|
                            (0 <= k < done + 1 && (forall|j: int|
                                k < j < done + 1 ==> member_name(cfg, #[trigger] cfg.methods@[j])
                                    != member_name(cfg, cfg.methods@[k]))) implies (member_name(
                            cfg,
                            #[trigger] cfg.methods@[k],
                        ) matches Some(mn2) && spec_method_record_matches(
                            cfg,
                            cfg.methods@[k],
                            methods_t@[mn2],
                        )) by {
                            if k < done {
                                assert(member_name(cfg, cfg.methods@[done]) != member_name(
                                    cfg,
                                    cfg.methods@[k],
                                ));
                                assert(forall|j: int|
                                    k < j < done ==> member_name(cfg, #[trigger] cfg.methods@[j])
                                        != member_name(cfg, cfg.methods@[k]));
                            }
                        }
                        assert forall|mn2: Seq<char>| #[trigger]
                            methods_t@.contains_key(mn2) implies exists|k: int|
                            0 <= k < done + 1 && member_name(cfg, #[trigger] cfg.methods@[k])
                                == Some(mn2) by {
                            if mn2 == pm.name@ {
                                assert(member_name(cfg, cfg.methods@[done]) == Some(mn2));
                            } else {
                                assert(pre_methods.contains_key(mn2));
                            }
                        }
                    }
                },
                None => {
                    let ghost pre_methods = methods_t@;
                    methods_t.insert(
                        pm.name,
                        Method::Native(NativeMethod { params: pm.params, return_ty: pm.return_ty }),
                    );
                    proof {
                        assert forall|mn: Seq<char>| #[trigger]
                            methods_t@.contains_key(mn) implies spec_method_entry_linked(
                            self.code_pool@,
                            cfg,
                            methods_t@[mn],
                            mn,
                        ) by {
                            if mn != pm.name@ {
                                assert(pre_methods.contains_key(mn));
                                assert(methods_t@[mn] == pre_methods[mn]);
                            }
                        }
                        assert(spec_method_record_matches(
                            cfg,
                            cfg.methods@[done],
                            methods_t@[pm.name@],
                        ));
                        assert forall|k: int|
                            (0 <= k < done + 1 && (forall|j: int|
                                k < j < done + 1 ==> member_name(cfg, #[trigger] cfg.methods@[j])
                                    != member_name(cfg, cfg.methods@[k]))) implies (member_name(
                            cfg,
                            #[trigger] cfg.methods@[k],
                        ) matches Some(mn2) && spec_method_record_matches(
                            cfg,
                            cfg.methods@[k],
                            methods_t@[mn2],
                        )) by {
                            if k < done {
                                assert(member_name(cfg, cfg.methods@[done]) != member_name(
                                    cfg,
                                    cfg.methods@[k],
                                ));
                                assert(forall|j: int|
                                    k < j < done ==> member_name(cfg, #[trigger] cfg.methods@[j])
                                        != member_name(cfg, cfg.methods@[k]));
                            }
                        }
                        assert forall|mn2: Seq<char>| #[trigger]
                            methods_t@.contains_key(mn2) implies exists|k: int|
                            0 <= k < done + 1 && member_name(cfg, #[trigger] cfg.methods@[k])
                                == Some(mn2) by {
                            if mn2 == pm.name@ {
                                assert(member_name(cfg, cfg.methods@[done]) == Some(mn2));
                            } else {
                                assert(pre_methods.contains_key(mn2));
                            }
                        }
                    }
                },
            }
        }
        let mut fields_t: Table<Field> = Table::new();
        while pending_fields.len() > 0
            invariant
                fields_t.wf(),
                self.class_files == old(self).class_files,
                self.initialized == old(self).initialized,
                self.runtime_pool == old(self).runtime_pool,
                code0 == old(self).code_pool@,
                self.code_pool@.len() >= code0.len(),
                self.code_pool@.subrange(0, code0.len() as int) == code0,
                methods_t.wf(),
                methods_linked(self.code_pool@, cfg, methods_t@),
                forall|k: int|
                    0 <= k < n_methods ==> (member_name(cfg, #[trigger] cfg.methods@[k]) matches
                        Some(mn) && methods_t@.contains_key(mn)),
                n_methods == cfg.methods@.len(),
                n_fields == cfg.fields@.len(),
                pending_fields@.len() <= n_fields,
                forall|j: int|
                    0 <= j < pending_fields@.len() ==> pending_field_matches(
                        cfg,
                        #[trigger] pending_fields@[j],
                        n_fields - 1 - j,
                    ),
                forall|k: int|
                    0 <= k < n_fields - pending_fields@.len() ==> (member_name(
                        cfg,
                        #[trigger] cfg.fields@[k],
                    ) matches Some(fname) && fields_t@.contains_key(fname) && fields_t@[
                        fname
                    ].value is Uninit),
                forall|k: int|
                    (0 <= k < n_fields - pending_fields@.len() && (forall|j: int|
                        k < j < n_fields - pending_fields@.len() ==> member_name(
                            cfg,
                            #[trigger] cfg.fields@[j],
                        ) != member_name(cfg, cfg.fields@[k]))) ==> (member_name(
                        cfg,
                        #[trigger] cfg.fields@[k],
                    ) matches Some(fname) && spec_field_record_matches(
                        cfg,
                        cfg.fields@[k],
                        fields_t@[fname],
                    )),
                forall|fname: Seq<char>| #[trigger]
                    fields_t@.contains_key(fname) ==> exists|k: int|
                        0 <= k < n_fields - pending_fields@.len() && member_name(
                            cfg,
                            #[trigger] cfg.fields@[k],
                        ) == Some(fname),
            decreases pending_fields@.len(),
        {
            let ghost done = n_fields - pending_fields@.len();
            let pf = match pending_fields.pop() {
                Some(pf) => pf,
                None => {
                    proof {
                        assert(false);
                    }
                    return Err(VmError::ClassNotFound(class_name.clone()));
                },
            };
            proof {
                assert(pending_field_matches(cfg, pf, done));
            }
            let ghost pre_fields = fields_t@;
            fields_t.insert(pf.name, Field { ty: pf.ty, value: Value::Uninit });
            proof {
                assert(spec_field_record_matches(cfg, cfg.fields@[done], fields_t@[pf.name@]));
                assert forall|k: int|
                    (0 <= k < done + 1 && (forall|j: int|
                        k < j < done + 1 ==> member_name(cfg, #[trigger] cfg.fields@[j])
                            != member_name(cfg, cfg.fields@[k]))) implies (member_name(
                    cfg,
                    #[trigger] cfg.fields@[k],
                ) matches Some(fname2) && spec_field_record_matches(
                    cfg,
                    cfg.fields@[k],
                    fields_t@[fname2],
                )) by {
                    if k < done {
                        assert(member_name(cfg, cfg.fields@[done]) != member_name(
                            cfg,
                            cfg.fields@[k],
                        ));
                        assert(forall|j: int|
                            k < j < done ==> member_name(cfg, #[trigger] cfg.fields@[j])
                                != member_name(cfg, cfg.fields@[k]));
                    }
                }
                assert forall|fname2: Seq<char>| #[trigger]
                    fields_t@.contains_key(fname2) implies exists|k: int|
                    0 <= k < done + 1 && member_name(cfg, #[trigger] cfg.fields@[k]) == Some(
                        fname2,
                    ) by {
                    if fname2 == pf.name@ {
                        assert(member_name(cfg, cfg.fields@[done]) == Some(fname2));
                    } else {
                        assert(pre_fields.contains_key(fname2));
                    }
                }
            }
        }
        let c = Class { methods: methods_t, fields: fields_t };
        self.runtime_pool.insert(class_name.clone(), RuntimePool::Class(c));
        proof {
            assert forall|cn: Seq<char>| #[trigger]
                self.runtime_pool@.contains_key(cn) implies {
                &&& self.class_files@.contains_key(cn)
                &&& match self.runtime_pool@[cn] {
                    RuntimePool::Class(cc) => cc.wf() && class_linked(
                        self.code_pool@,
                        self.class_files@[cn],
                        cc,
                    ),
                }
            } by {
                if cn == class_name@ {
                } else {
                    assert(old_self.pool_view().contains_key(cn));
                    match old_self.pool_view()[cn] {
                        RuntimePool::Class(cc) => {
                            lemma_methods_linked_extend(
                                code0,
                                self.code_pool@,
                                old_self.class_files_view()[cn],
                                cc.methods@,
                            );
                        },
                    }
                }
            }
            assert(self.runtime_pool@ =~= old(self).runtime_pool@.insert(
                class_name@,
                self.runtime_pool@[class_name@],
            ));
        }
        Ok(class_name.clone())
    }

    /// Whether the named class's `<clinit>` has completed (or the class
    /// was found to need none).
    pub fn is_class_initialized(&self, class: &String) -> (r: bool)
        ensures
            r == self.spec_initialized(class@),
    {
        self.initialized.contains_key(class)
    }

    /// Idempotent load-and-link: returns the existing runtime-pool entry's
    /// name, or links the class first.
    pub fn get_or_load_class(&mut self, class_name: &String) -> (r: Result<String, VmError>)
        requires
            old(self).wf(),
        ensures
            final(self).wf(),
            final(self).class_files_view() == old(self).class_files_view(),
            final(self).initialized_view() == old(self).initialized_view(),
            old(self).code().len() <= final(self).code().len(),
            final(self).code().subrange(0, old(self).code().len() as int) == old(self).code(),
            forall|k: Seq<char>| #[trigger]
                old(self).pool_view().contains_key(k) ==> final(self).pool_view().contains_key(k)
                    && final(self).pool_view()[k] == old(self).pool_view()[k],
            forall|k: Seq<char>| #[trigger]
                final(self).pool_view().contains_key(k) ==> old(self).pool_view().contains_key(k)
                    || k == class_name@,
            old(self).pool_view().contains_key(class_name@) ==> r is Ok && *final(self) == *old(
                self,
            ),
            r is Ok <==> (old(self).pool_view().contains_key(class_name@) || (old(
                self,
            ).class_files_view().contains_key(class_name@) && spec_class_linkable(
                old(self).class_files_view()[class_name@],
            ))),
            (!old(self).pool_view().contains_key(class_name@) && !old(
                self,
            ).class_files_view().contains_key(class_name@)) ==> (r matches Err(e) && e matches
                VmError::ClassNotFound(n) && n@ == class_name@),
            r matches Ok(n) ==> n@ == class_name@ && final(self).pool_view().contains_key(
                class_name@,
            ),
            r matches Err(_) ==> *final(self) == *old(self),
    {
        if self.runtime_pool.contains_key(class_name) {
            return Ok(class_name.clone());
        }
        match self.load_class(class_name) {
            Ok(_) => {},
            Err(e) => {
                return Err(e);
            },
        }
        self.link_class(class_name)
    }

    /// Resolves a `NameAndType` entry of `class`'s constant pool to its
    /// name and descriptor strings.
    pub fn get_name_and_type<'a>(&'a self, class: &String, index: u16) -> (r: Option<
        (&'a String, &'a String),
    >)
        requires
            self.wf(),
        ensures
            match r {
                Some(p) => self.class_files_view().contains_key(class@) && spec_name_and_type(
                    self.class_files_view()[class@],
                    index,
                ) == Some((p.0@, p.1@)),
                None => !self.class_files_view().contains_key(class@) || spec_name_and_type(
                    self.class_files_view()[class@],
                    index,
                ) is None,
            },
    {
        let cf = match self.class_files.get(class) {
            Some(cf) => cf,
            None => {
                return None;
            },
        };
        match cf.pool_entry(index as usize) {
            Some(entry) => match entry {
                ConstantPool::NameAndType { name_index, descriptor_index } => {
                    let n = match cf.get_str(*name_index as usize) {
                        Ok(s) => s,
                        Err(_) => {
                            return None;
                        },
                    };
                    let d = match cf.get_str(*descriptor_index as usize) {
                        Ok(s) => s,
                        Err(_) => {
                            return None;
                        },
                    };
                    Some((n, d))
                },
                _ => None,
            },
            None => None,
        }
    }

    /// Resolves the class a member reference at `index` of `class`'s
    /// constant pool names, and loads and links it if it is not yet in the
    /// runtime pool.
    pub fn get_or_load_class_item(&mut self, class: &String, index: u16) -> (r: Option<String>)
        requires
            old(self).wf(),
        ensures
            final(self).wf(),
            final(self).class_files_view() == old(self).class_files_view(),
            final(self).initialized_view() == old(self).initialized_view(),
            old(self).code().len() <= final(self).code().len(),
            final(self).code().subrange(0, old(self).code().len() as int) == old(self).code(),
            forall|k: Seq<char>| #[trigger]
                old(self).pool_view().contains_key(k) ==> final(self).pool_view().contains_key(k)
                    && final(self).pool_view()[k] == old(self).pool_view()[k],
            r matches Some(n) ==> {
                &&& old(self).class_files_view().contains_key(class@)
                &&& spec_ref_class_name(old(self).class_files_view()[class@], index) == Some(n@)
                &&& final(self).pool_view().contains_key(n@)
            },
            (old(self).class_files_view().contains_key(class@) && (spec_ref_class_name(
                old(self).class_files_view()[class@],
                index,
            ) matches Some(n) && old(self).pool_view().contains_key(n))) ==> (r is Some
                && *final(self) == *old(self)),
            (old(self).class_files_view().contains_key(class@) && (spec_ref_class_name(
                old(self).class_files_view()[class@],
                index,
            ) matches Some(n) && old(self).class_files_view().contains_key(n)
                && spec_class_linkable(old(self).class_files_view()[n]))) ==> r is Some,
            r is None ==> *final(self) == *old(self),
    {
        let name: String = {
            let cf = match self.class_files.get(class) {
                Some(cf) => cf,
                None => {
                    return None;
                },
            };
            let class_index: u16 = match cf.pool_entry(index as usize) {
                Some(entry) => match entry {
                    ConstantPool::FieldRef { class_index, .. } => *class_index,
                    ConstantPool::MethodRef { class_index, .. } => *class_index,
                    ConstantPool::InterfaceMethodRef { class_index, .. } => *class_index,
                    _ => {
                        return None;
                    },
                },
                None => {
                    return None;
                },
            };
            match cf.pool_entry(class_index as usize) {
                Some(entry) => match entry {
                    ConstantPool::Class { name_index } => {
                        match cf.get_str(*name_index as usize) {
                            Ok(s) => s.clone(),
                            Err(_) => {
                                return None;
                            },
                        }
                    },
                    _ => {
                        return None;
                    },
                },
                None => {
                    return None;
                },
            }
        };
        match self.get_or_load_class(&name) {
            Ok(n) => Some(n),
            Err(_) => None,
        }
    }

    /// Resolves a member reference at `index` of `class`'s constant pool
    /// to the owning class name, the field name, and the live field cell.
    pub fn get_field_by_index<'a>(&'a self, class: &String, index: u16) -> (r: Option<
        (String, String, &'a Field),
    >)
        requires
            self.wf(),
        ensures
            match r {
                Some(p) => {
                    &&& self.class_files_view().contains_key(class@)
                    &&& spec_member_ref(self.class_files_view()[class@], index) == Some(
                        (p.0@, p.1@),
                    )
                    &&& self.pool_view().contains_key(p.0@)
                    &&& match self.pool_view()[p.0@] {
                        RuntimePool::Class(c) => c.fields@.contains_key(p.1@) && *p.2 == c.fields@[
                            p.1@
                        ],
                    }
                },
                None => !(self.class_files_view().contains_key(class@) && (spec_member_ref(
                    self.class_files_view()[class@],
                    index,
                ) matches Some(q) && self.pool_view().contains_key(q.0) && (match self.pool_view()[
                    q.0
                ] {
                    RuntimePool::Class(c) => c.fields@.contains_key(q.1),
                }))),
            },
    {
        let (owner, member) = match self.resolve_member_ref(class, index) {
            Some(p) => p,
            None => {
                return None;
            },
        };
        match self.runtime_pool.get(&owner) {
            Some(rp) => match rp {
                RuntimePool::Class(c) => match c.fields.get(&member) {
                    Some(f) => Some((owner, member, f)),
                    None => None,
                },
            },
            None => None,
        }
    }

    /// Resolves a member reference to `(owner class name, member name)`.
    fn resolve_member_ref(&self, class: &String, index: u16) -> (r: Option<(String, String)>)
        requires
            self.wf(),
        ensures
            match r {
                Some(p) => self.class_files_view().contains_key(class@) && spec_member_ref(
                    self.class_files_view()[class@],
                    index,
                ) == Some((p.0@, p.1@)),
                None => !self.class_files_view().contains_key(class@) || spec_member_ref(
                    self.class_files_view()[class@],
                    index,
                ) is None,
            },
    {
        let cf = match self.class_files.get(class) {
            Some(cf) => cf,
            None => {
                return None;
            },
        };
        let (class_index, nat_index): (u16, u16) = match cf.pool_entry(index as usize) {
            Some(entry) => match entry {
                ConstantPool::FieldRef { class_index, name_and_type_index } => (
                    *class_index,
                    *name_and_type_index,
                ),
                ConstantPool::MethodRef { class_index, name_and_type_index } => (
                    *class_index,
                    *name_and_type_index,
                ),
                ConstantPool::InterfaceMethodRef { class_index, name_and_type_index } => (
                    *class_index,
                    *name_and_type_index,
                ),
                _ => {
                    return None;
                },
            },
            None => {
                return None;
            },
        };
        let owner: String = match cf.pool_entry(class_index as usize) {
            Some(entry) => match entry {
                ConstantPool::Class { name_index } => match cf.get_str(*name_index as usize) {
                    Ok(s) => s.clone(),
                    Err(_) => {
                        return None;
                    },
                },
                _ => {
                    return None;
                },
            },
            None => {
                return None;
            },
        };
        let member: String = match self.get_name_and_type(class, nat_index) {
            Some((n, _d)) => n.clone(),
            None => {
                return None;
            },
        };
        Some((owner, member))
    }

    /// The resolved method record of `class_name` named `name`.
    pub fn get_method_by_name<'a>(&'a self, class_name: &String, name: &String) -> (r: Option<
        &'a Method,
    >)
        requires
            self.wf(),
        ensures
            match r {
                Some(m) => {
                    &&& self.pool_view().contains_key(class_name@)
                    &&& match self.pool_view()[class_name@] {
                        RuntimePool::Class(c) => c.methods@.contains_key(name@) && *m == c.methods@[
                            name@
                        ],
                    }
                },
                None => !(self.pool_view().contains_key(class_name@) && (match self.pool_view()[
                    class_name@
                ] {
                    RuntimePool::Class(c) => c.methods@.contains_key(name@),
                })),
            },
    {
        match self.runtime_pool.get(class_name) {
            Some(rp) => match rp {
                RuntimePool::Class(c) => c.methods.get(name),
            },
            None => None,
        }
    }

    /// Resolves a member reference at `index` of `class`'s constant pool
    /// to the owning class name, the method name, and the resolved method.
    pub fn get_method_by_index<'a>(&'a self, class: &String, index: u16) -> (r: Option<
        (String, String, &'a Method),
    >)
        requires
            self.wf(),
        ensures
            match r {
                Some(p) => {
                    &&& self.class_files_view().contains_key(class@)
                    &&& spec_member_ref(self.class_files_view()[class@], index) == Some(
                        (p.0@, p.1@),
                    )
                    &&& self.pool_view().contains_key(p.0@)
                    &&& match self.pool_view()[p.0@] {
                        RuntimePool::Class(c) => c.methods@.contains_key(p.1@) && *p.2
                            == c.methods@[p.1@],
                    }
                },
                None => !(self.class_files_view().contains_key(class@) && (spec_member_ref(
                    self.class_files_view()[class@],
                    index,
                ) matches Some(q) && self.pool_view().contains_key(q.0) && (match self.pool_view()[
                    q.0
                ] {
                    RuntimePool::Class(c) => c.methods@.contains_key(q.1),
                }))),
            },
    {
        let (owner, member) = match self.resolve_member_ref(class, index) {
            Some(p) => p,
            None => {
                return None;
            },
        };
        match self.runtime_pool.get(&owner) {
            Some(rp) => match rp {
                RuntimePool::Class(c) => match c.methods.get(&member) {
                    Some(m) => Some((owner, member, m)),
                    None => None,
                },
            },
            None => None,
        }
    }

    /// Writes a static-field cell after checking the value's variant
    /// against the field's declared type. Nothing but that one cell
    /// changes.
    pub fn set_static_value(&mut self, owner: &String, name: &String, value: Value) -> (r:
        SetStaticOutcome)
        requires
            old(self).wf(),
        ensures
            final(self).wf(),
            final(self).class_files_view() == old(self).class_files_view(),
            final(self).initialized_view() == old(self).initialized_view(),
            final(self).code() == old(self).code(),
            match r {
                SetStaticOutcome::Written => {
                    &&& old(self).pool_view().contains_key(owner@)
                    &&& final(self).pool_view().contains_key(owner@)
                    &&& match (old(self).pool_view()[owner@], final(self).pool_view()[owner@]) {
                        (RuntimePool::Class(c), RuntimePool::Class(c2)) => {
                            &&& c.fields@.contains_key(name@)
                            &&& value.spec_matches_type(c.fields@[name@].ty)
                            &&& c2.methods@ == c.methods@
                            &&& c2.fields@ == c.fields@.insert(
                                name@,
                                Field { ty: c.fields@[name@].ty, value },
                            )
                        },
                    }
                    &&& final(self).pool_view() == old(self).pool_view().insert(
                        owner@,
                        final(self).pool_view()[owner@],
                    )
                },
                SetStaticOutcome::NoSuchField => {
                    &&& pool_preserved(old(self).pool_view(), final(self).pool_view())
                    &&& !(old(self).pool_view().contains_key(owner@) && (match old(
                        self,
                    ).pool_view()[owner@] {
                        RuntimePool::Class(c) => c.fields@.contains_key(name@),
                    }))
                },
                SetStaticOutcome::TypeMismatch => {
                    &&& pool_preserved(old(self).pool_view(), final(self).pool_view())
                    &&& old(self).pool_view().contains_key(owner@)
                    &&& match old(self).pool_view()[owner@] {
                        RuntimePool::Class(c) => c.fields@.contains_key(name@)
                            && !value.spec_matches_type(c.fields@[name@].ty),
                    }
                },
            },
    {
        if !self.runtime_pool.contains_key(owner) {
            return SetStaticOutcome::NoSuchField;
        }
        let ghost old_pool = self.runtime_pool@;
        let outcome: SetStaticOutcome;
        {
            let rp = self.runtime_pool.get_mut_known(owner);
            match rp {
                RuntimePool::Class(c) => {
                    if !c.fields.contains_key(name) {
                        outcome = SetStaticOutcome::NoSuchField;
                    } else {
                        let f = c.fields.get_mut_known(name);
                        if value.matches_type(&f.ty) {
                            f.value = value;
                            outcome = SetStaticOutcome::Written;
                        } else {
                            outcome = SetStaticOutcome::TypeMismatch;
                        }
                    }
                },
            }
        }
        proof {
            match outcome {
                SetStaticOutcome::Written => {
                    assert(self.runtime_pool@ =~= old_pool.insert(
                        owner@,
                        self.runtime_pool@[owner@],
                    ));
                    assert forall|cn: Seq<char>| #[trigger]
                        self.runtime_pool@.contains_key(cn) implies {
                        &&& self.class_files@.contains_key(cn)
                        &&& match self.runtime_pool@[cn] {
                            RuntimePool::Class(cc) => cc.wf() && class_linked(
                                self.code_pool@,
                                self.class_files@[cn],
                                cc,
                            ),
                        }
                    } by {
                        assert(old_pool.contains_key(cn));
                        if cn != owner@ {
                            assert(self.runtime_pool@[cn] == old_pool[cn]);
                        }
                    }
                },
                _ => {
                    assert forall|k: Seq<char>| #[trigger]
                        old_pool.contains_key(k) implies match (old_pool[k], self.runtime_pool@[
                        k
                    ]) {
                        (RuntimePool::Class(ca), RuntimePool::Class(cb)) => cb.methods@
                            == ca.methods@ && cb.fields@ == ca.fields@,
                    } by {
                        if k == owner@ {
                            match (old_pool[k], self.runtime_pool@[k]) {
                                (RuntimePool::Class(ca), RuntimePool::Class(cb)) => {
                                    assert(cb.fields@ =~= ca.fields@);
                                },
                            }
                        }
                    }
                    assert forall|cn: Seq<char>| #[trigger]
                        self.runtime_pool@.contains_key(cn) implies {
                        &&& self.class_files@.contains_key(cn)
                        &&& match self.runtime_pool@[cn] {
                            RuntimePool::Class(cc) => cc.wf() && class_linked(
                                self.code_pool@,
                                self.class_files@[cn],
                                cc,
                            ),
                        }
                    } by {
                        assert(old_pool.contains_key(cn));
                        if cn != owner@ {
                            assert(self.runtime_pool@[cn] == old_pool[cn]);
                        }
                    }
                },
            }
        }
        outcome
    }

    /// Records that the named class is initialized.
    pub fn set_class_initialized(&mut self, class: &String)
        requires
            old(self).wf(),
        ensures
            final(self).wf(),
            final(self).class_files_view() == old(self).class_files_view(),
            final(self).pool_view() == old(self).pool_view(),
            final(self).code() == old(self).code(),
            final(self).initialized_view() == old(self).initialized_view().insert(class@, true),
    {
        self.initialized.insert(class.clone(), true);
    }
}

} // verus!
