//! The derivation itself: classification of the input record's fields,
//! stable required-first partitioning, eager resolution of the generated
//! stage names, and construction of the builder-stage chain, the terminal
//! stage, and the entry point.

use vstd::prelude::*;
use crate::decls::{Decl, GeneratedField, OperationDecl, OpKind, StageDecl};
use crate::errors::DeriveError;
use crate::fields::{spec_is_optional, stage_name_of, ty_text, FieldData, RawField};
use crate::names::{
    bases_of, chain_base, chain_name, lemma_colliding_names_distinct, lemma_occ_le_len,
    lemma_registry_step, occ_count, registry_matches, NameRegistry,
};

verus! {

/// What kind of aggregate the external parser handed over: a record with
/// its raw fields, or something that is not a record at all.
pub enum InputData {
    Struct { fields: Vec<RawField> },
    NotStruct,
}

/// The declaration the derivation works on: the record's name, its
/// visibility rendered as source text, and its aggregate kind. It is
/// read-only input, one instance per derivation.
pub struct RecordInput {
    pub ident: String,
    pub vis: String,
    pub data: InputData,
}

/// The raw fields of a record input; the empty sequence for a non-record.
pub open spec fn input_fields(data: InputData) -> Seq<RawField> {
    match data {
        InputData::Struct { fields } => fields@,
        InputData::NotStruct => Seq::empty(),
    }
}

/// Every field of the record has a name (vacuously true of no fields).
pub open spec fn all_named(fields: Seq<RawField>) -> bool {
    forall|i: int| 0 <= i < fields.len() ==> fields[i].ident is Some
}

/// A derivation is accepted exactly for a record whose fields all have
/// names, or one with no fields at all.
pub open spec fn spec_accepted(input: RecordInput) -> bool {
    input.data is Struct && all_named(input_fields(input.data))
}

/// The required fields, in original declaration order.
pub open spec fn spec_required(fields: Seq<RawField>) -> Seq<RawField>
    decreases fields.len(),
{
    if fields.len() == 0 {
        Seq::empty()
    } else if !spec_is_optional(fields.last().ty) {
        spec_required(fields.drop_last()).push(fields.last())
    } else {
        spec_required(fields.drop_last())
    }
}

/// The optional fields, in original declaration order.
pub open spec fn spec_optional(fields: Seq<RawField>) -> Seq<RawField>
    decreases fields.len(),
{
    if fields.len() == 0 {
        Seq::empty()
    } else if spec_is_optional(fields.last().ty) {
        spec_optional(fields.drop_last()).push(fields.last())
    } else {
        spec_optional(fields.drop_last())
    }
}

/// The names of the required fields, in declaration order.
pub open spec fn req_names(fields: Seq<RawField>) -> Seq<Seq<char>> {
    spec_required(fields).map_values(|f: RawField| f.ident->0@)
}

/// A field descriptor carries exactly one raw field's name and type.
pub open spec fn fd_matches(fd: FieldData, rf: RawField) -> bool {
    &&& rf.ident matches Some(n) && fd.ident == n
    &&& fd.ty == rf.ty
}

/// The generated name of the terminal builder stage.
pub open spec fn final_name(struct_name: Seq<char>) -> Seq<char> {
    struct_name + "Builder"@
}

/// The generator state that a successful classification of `input` hands
/// to the constructors: name and visibility carried over; the fields
/// stably partitioned required-first, each group in declaration order;
/// each required field's stage name resolved and memoized; and the
/// original declaration order of the field names retained for finalize.
pub open spec fn generator_ok(g: BetterBuilderGenerator, input: RecordInput) -> bool {
    let fields = input_fields(input.data);
    let req = spec_required(fields);
    let opt = spec_optional(fields);
    let k = req.len() as int;
    &&& g.struct_name == input.ident
    &&& g.visibility == input.vis
    &&& g.fields@.len() == fields.len()
    &&& req.len() + opt.len() == fields.len()
    &&& forall|i: int| 0 <= i < k ==> fd_matches(#[trigger] g.fields@[i], req[i])
    &&& forall|i: int|
        k <= i < g.fields@.len() ==> fd_matches(#[trigger] g.fields@[i], opt[i - k])
    &&& forall|i: int|
        0 <= i < k ==> ((#[trigger] g.fields@[i].builder_name_cache) matches Some(nm)
            && nm@ == chain_name(input.ident@, req_names(fields), i))
    &&& forall|i: int|
        k <= i < g.fields@.len() ==> (#[trigger] g.fields@[i].builder_name_cache) is None
    &&& g.decl_order@.len() == fields.len()
    &&& forall|i: int|
        0 <= i < fields.len() ==> ((#[trigger] fields[i].ident) matches Some(n)
            && g.decl_order@[i] == n)
}

/// The name and declared-type text of a field descriptor.
pub open spec fn fd_view(fd: FieldData) -> (Seq<char>, Seq<char>) {
    (fd.ident@, ty_text(fd.ty))
}

/// The name and declared-type text of a raw field (one that has a name).
pub open spec fn rf_view(rf: RawField) -> (Seq<char>, Seq<char>) {
    (rf.ident->0@, ty_text(rf.ty))
}

/// The optional field descriptors among `fds`, in order.
pub open spec fn optional_fds(fds: Seq<FieldData>) -> Seq<FieldData>
    decreases fds.len(),
{
    if fds.len() == 0 {
        Seq::empty()
    } else if spec_is_optional(fds.last().ty) {
        optional_fds(fds.drop_last()).push(fds.last())
    } else {
        optional_fds(fds.drop_last())
    }
}

/// One generated stage type declaration: the given visibility and name,
/// carrying exactly the given fields, each with its declared type's text.
pub open spec fn is_stage_decl(
    s: StageDecl,
    vis: Seq<char>,
    name: Seq<char>,
    carried: Seq<(Seq<char>, Seq<char>)>,
) -> bool {
    &&& s.vis@ == vis
    &&& s.name@ == name
    &&& s.fields@.len() == carried.len()
    &&& forall|j: int|
        0 <= j < carried.len() ==> (#[trigger] s.fields@[j]).name@ == carried[j].0
            && s.fields@[j].ty@ == carried[j].1
}

/// The forwarding operation of one intermediate stage: named after its
/// required field, taking that field's declared type, consuming the stage
/// and producing `output` from the carried fields, the new field, and the
/// optional fields initialized to absent (only when `output` is terminal).
pub open spec fn is_forward_op(
    op: OperationDecl,
    receiver: Seq<char>,
    fname: Seq<char>,
    fty: Seq<char>,
    output: Seq<char>,
    moved: Seq<Seq<char>>,
    absent: Seq<Seq<char>>,
) -> bool {
    &&& op.kind is Forward
    &&& op.receiver@ == receiver
    &&& op.name@ == fname
    &&& op.param matches Some(p) && p.name@ == fname && p.ty@ == fty
    &&& op.output@ == output
    &&& op.moved_fields@.len() == moved.len()
    &&& forall|j: int| 0 <= j < moved.len() ==> (#[trigger] op.moved_fields@[j])@ == moved[j]
    &&& op.absent_fields@.len() == absent.len()
    &&& forall|j: int| 0 <= j < absent.len() ==> (#[trigger] op.absent_fields@[j])@ == absent[j]
}

/// The setter of one optional field on the terminal stage: it takes the
/// field's declared (wrapper) type, overwrites the stored value, and
/// returns the same stage.
pub open spec fn is_setter_op(
    op: OperationDecl,
    terminal: Seq<char>,
    fname: Seq<char>,
    fty: Seq<char>,
) -> bool {
    &&& op.kind is SetOptional
    &&& op.receiver@ == terminal
    &&& op.name@ == fname
    &&& op.param matches Some(p) && p.name@ == fname && p.ty@ == fty
    &&& op.output@ == terminal
    &&& op.moved_fields@.len() == 0
    &&& op.absent_fields@.len() == 0
}

/// The finalize operation: consumes the terminal stage and produces the
/// record, transferring every field in original declaration order.
pub open spec fn is_build_op(
    op: OperationDecl,
    terminal: Seq<char>,
    record: Seq<char>,
    order: Seq<Seq<char>>,
) -> bool {
    &&& op.kind is Finalize
    &&& op.receiver@ == terminal
    &&& op.name@ == "build"@
    &&& op.param is None
    &&& op.output@ == record
    &&& op.moved_fields@.len() == order.len()
    &&& forall|j: int| 0 <= j < order.len() ==> (#[trigger] op.moved_fields@[j])@ == order[j]
    &&& op.absent_fields@.len() == 0
}

/// The single static factory on the record type: it takes nothing and
/// produces `output` (the first stage, or the terminal stage with every
/// optional field initialized to absent).
pub open spec fn is_factory_op(
    op: OperationDecl,
    record: Seq<char>,
    output: Seq<char>,
    absent: Seq<Seq<char>>,
) -> bool {
    &&& op.kind is Factory
    &&& op.receiver@ == record
    &&& op.name@ == "builder"@
    &&& op.param is None
    &&& op.output@ == output
    &&& op.moved_fields@.len() == 0
    &&& op.absent_fields@.len() == absent.len()
    &&& forall|j: int| 0 <= j < absent.len() ==> (#[trigger] op.absent_fields@[j])@ == absent[j]
}

/// Prepares one derivation: accepts or refuses the input shape, partitions
/// the fields, and resolves the generated stage names.
pub struct BetterBuilderGenerator {
    pub struct_name: String,
    pub visibility: String,
    pub fields: Vec<FieldData>,
    pub decl_order: Vec<String>,
}

impl BetterBuilderGenerator {
    /// Classifies the input: a record whose fields all have names (or one
    /// with no fields) is accepted, its fields partitioned required-first
    /// with each group keeping declaration order, and every required
    /// field's stage name resolved; any other shape is refused with the
    /// matching diagnostic and no partial state.
    pub fn new(input: &RecordInput) -> (r: Result<BetterBuilderGenerator, DeriveError>)
        requires
            input_fields(input.data).len() <= 65535,
        ensures
            r is Ok == spec_accepted(*input),
            input.data is NotStruct ==> r == Err::<BetterBuilderGenerator, DeriveError>(
                DeriveError::StructRequired,
            ),
            input.data is Struct && !all_named(input_fields(input.data)) ==> r == Err::<
                BetterBuilderGenerator,
                DeriveError,
            >(DeriveError::NamedFieldsRequired),
            r matches Ok(g) ==> generator_ok(g, *input),
    {
        let fields_vec: &Vec<RawField> = match &input.data {
            InputData::Struct { fields } => fields,
            InputData::NotStruct => {
                return Err(DeriveError::StructRequired);
            },
        };
        let ghost raw = fields_vec@;
        proof {
            assert(input.data is Struct);
            assert(input_fields(input.data) == raw);
        }
        let n = fields_vec.len();

        // Convert each raw field, refusing the record on the first field
        // without a name, and retain the declaration order of the names.
        let mut converted: Vec<FieldData> = Vec::new();
        let mut decl_order: Vec<String> = Vec::new();
        let mut idx: usize = 0;
        while idx < n
            invariant
                input.data is Struct,
                input_fields(input.data) == raw,
                n == raw.len(),
                raw == fields_vec@,
                idx <= n,
                converted@.len() == idx,
                decl_order@.len() == idx,
                forall|j: int|
                    0 <= j < idx ==> (#[trigger] raw[j].ident) is Some,
                forall|j: int|
                    0 <= j < idx ==> fd_matches(#[trigger] converted@[j], raw[j]),
                forall|j: int|
                    0 <= j < idx ==> (#[trigger] converted@[j].builder_name_cache) is None,
                forall|j: int|
                    0 <= j < idx ==> (raw[j].ident matches Some(nm) && #[trigger] decl_order@[j]
                        == nm),
            decreases n - idx,
        {
            match FieldData::try_from(&fields_vec[idx]) {
                Ok(fd) => {
                    decl_order.push(fd.ident.clone());
                    converted.push(fd);
                },
                Err(e) => {
                    return Err(e);
                },
            }
            idx += 1;
        }

        // Stable partition: required fields first, optional fields after,
        // each group in declaration order.
        let ghost conv = converted@;
        let mut required: Vec<FieldData> = Vec::new();
        let mut optional: Vec<FieldData> = Vec::new();
        let mut p: usize = 0;
        while converted.len() > 0
            invariant
                conv.len() == n,
                p + converted@.len() == n,
                converted@ == conv.skip(p as int),
                required@.len() == spec_required(raw.take(p as int)).len(),
                optional@.len() == spec_optional(raw.take(p as int)).len(),
                forall|j: int|
                    0 <= j < required@.len() ==> fd_matches(
                        #[trigger] required@[j],
                        spec_required(raw.take(p as int))[j],
                    ),
                forall|j: int|
                    0 <= j < optional@.len() ==> fd_matches(
                        #[trigger] optional@[j],
                        spec_optional(raw.take(p as int))[j],
                    ),
                forall|j: int|
                    0 <= j < required@.len() ==> (#[trigger] required@[j].builder_name_cache)
                        is None,
                forall|j: int|
                    0 <= j < optional@.len() ==> (#[trigger] optional@[j].builder_name_cache)
                        is None,
                n == raw.len(),
                forall|j: int| 0 <= j < n ==> fd_matches(#[trigger] conv[j], raw[j]),
                forall|j: int| 0 <= j < n ==> (#[trigger] conv[j].builder_name_cache) is None,
            decreases converted@.len(),
        {
            let fd = converted.remove(0);
            proof {
                assert(fd == conv[p as int]);
                assert(conv.skip(p as int).skip(1) =~= conv.skip(p as int + 1));
                assert(raw.take(p as int + 1).drop_last() =~= raw.take(p as int));
                assert(raw.take(p as int + 1).last() == raw[p as int]);
            }
            if fd.is_optional() {
                optional.push(fd);
            } else {
                required.push(fd);
            }
            p += 1;
        }
        proof {
            assert(raw.take(n as int) =~= raw);
            lemma_partition_lens(raw);
        }

        // Resolve one stage name per required field, in order, against a
        // registry owned by this derivation alone.
        let struct_name = input.ident.clone();
        let ghost names = req_names(raw);
        let ghost bases = bases_of(input.ident@, names);
        let ghost k = spec_required(raw).len();
        let mut registry = NameRegistry::new();
        let mut resolved: Vec<FieldData> = Vec::new();
        proof {
            assert(bases.take(0) =~= Seq::<Seq<char>>::empty());
        }
        while resolved.len() < required.len()
            invariant
                required@.len() == k,
                k == spec_required(raw).len(),
                k <= n,
                n <= 65535,
                n == raw.len(),
                resolved@.len() <= k,
                names == req_names(raw),
                bases == bases_of(input.ident@, names),
                struct_name == input.ident,
                forall|j: int|
                    0 <= j < required@.len() ==> fd_matches(
                        #[trigger] required@[j],
                        spec_required(raw)[j],
                    ),
                forall|j: int|
                    0 <= j < required@.len() ==> (#[trigger] required@[j].builder_name_cache)
                        is None,
                registry_matches(registry@, bases.take(resolved@.len() as int)),
                forall|j: int|
                    0 <= j < resolved@.len() ==> fd_matches(
                        #[trigger] resolved@[j],
                        spec_required(raw)[j],
                    ),
                forall|j: int|
                    0 <= j < resolved@.len() ==> ((#[trigger] resolved@[j].builder_name_cache)
                        matches Some(nm) && nm@ == chain_name(input.ident@, names, j)),
            decreases required@.len() - resolved@.len(),
        {
            let i = resolved.len();
            let mut fd = required_get(&required, i);
            let ghost ii = i as int;
            proof {
                assert(names.len() == k);
                assert(bases.len() == k);
                assert(names[ii] == spec_required(raw)[ii].ident->0@);
                assert(fd.ident@ == names[ii]);
                assert(bases[ii] == chain_base(input.ident@, fd.ident@));
                lemma_occ_le_len(bases.take(ii), bases[ii]);
                if occ_count(bases.take(ii), bases[ii]) > 0 {
                    assert(registry@.contains_key(bases[ii]));
                }
                lemma_registry_step(registry@, bases, ii);
            }
            let _name = fd.generate_builder_name(&struct_name, &mut registry);
            resolved.push(fd);
            proof {
                assert(bases.take(ii + 1).drop_last() =~= bases.take(ii));
            }
        }

        // Required fields first, then the optional fields.
        let ghost kk = resolved@.len();
        resolved.append(&mut optional);
        proof {
            lemma_partition_lens(raw);
            assert(resolved@.len() == n);
        }
        Ok(
            BetterBuilderGenerator {
                struct_name,
                visibility: input.vis.clone(),
                fields: resolved,
                decl_order,
            },
        )
    }
}

impl BetterBuilderGenerator {
    /// The partitioned field descriptors: required first, optional after.
    pub fn fields(&self) -> (r: &Vec<FieldData>)
        ensures
            *r == self.fields,
    {
        &self.fields
    }

    /// The record's visibility, as source text; the generated stages
    /// carry the same visibility.
    pub fn visibility(&self) -> (r: &String)
        ensures
            *r == self.visibility,
    {
        &self.visibility
    }

    /// The record's name.
    pub fn struct_name(&self) -> (r: &String)
        ensures
            *r == self.struct_name,
    {
        &self.struct_name
    }

    /// The name of the terminal builder stage: the record's name followed
    /// by `Builder`.
    pub fn final_builder_name(&self) -> (r: String)
        ensures
            r@ == final_name(self.struct_name@),
    {
        let mut builder_name = self.struct_name.clone();
        builder_name.append("Builder");
        builder_name
    }

    /// The names of the optional fields, in declaration order.
    pub fn optional_names(&self) -> (r: Vec<String>)
        ensures
            r@.len() == optional_fds(self.fields@).len(),
            forall|j: int|
                0 <= j < r@.len() ==> #[trigger] r@[j] == optional_fds(self.fields@)[j].ident,
    {
        let mut names: Vec<String> = Vec::new();
        let mut i: usize = 0;
        proof {
            assert(self.fields@.take(0) =~= Seq::<FieldData>::empty());
        }
        while i < self.fields.len()
            invariant
                i <= self.fields@.len(),
                names@.len() == optional_fds(self.fields@.take(i as int)).len(),
                forall|j: int|
                    0 <= j < names@.len() ==> #[trigger] names@[j] == optional_fds(
                        self.fields@.take(i as int),
                    )[j].ident,
            decreases self.fields@.len() - i,
        {
            proof {
                assert(self.fields@.take(i as int + 1).drop_last() =~= self.fields@.take(i as int));
                assert(self.fields@.take(i as int + 1).last() == self.fields@[i as int]);
            }
            let fd = &self.fields[i];
            if fd.is_optional() {
                names.push(fd.ident.clone());
            }
            i += 1;
        }
        proof {
            assert(self.fields@.take(self.fields@.len() as int) =~= self.fields@);
        }
        names
    }

    /// One setter declaration per optional field, in declaration order,
    /// each on the terminal stage.
    pub fn generate_optional_setters(&self) -> (r: Vec<OperationDecl>)
        ensures
            r@.len() == optional_fds(self.fields@).len(),
            forall|j: int|
                0 <= j < r@.len() ==> is_setter_op(
                    #[trigger] r@[j],
                    final_name(self.struct_name@),
                    optional_fds(self.fields@)[j].ident@,
                    ty_text(optional_fds(self.fields@)[j].ty),
                ),
    {
        let mut setters: Vec<OperationDecl> = Vec::new();
        let mut i: usize = 0;
        proof {
            assert(self.fields@.take(0) =~= Seq::<FieldData>::empty());
        }
        while i < self.fields.len()
            invariant
                i <= self.fields@.len(),
                setters@.len() == optional_fds(self.fields@.take(i as int)).len(),
                forall|j: int|
                    0 <= j < setters@.len() ==> is_setter_op(
                        #[trigger] setters@[j],
                        final_name(self.struct_name@),
                        optional_fds(self.fields@.take(i as int))[j].ident@,
                        ty_text(optional_fds(self.fields@.take(i as int))[j].ty),
                    ),
            decreases self.fields@.len() - i,
        {
            proof {
                assert(self.fields@.take(i as int + 1).drop_last() =~= self.fields@.take(i as int));
                assert(self.fields@.take(i as int + 1).last() == self.fields@[i as int]);
            }
            let fd = &self.fields[i];
            if fd.is_optional() {
                let terminal = self.final_builder_name();
                let param = fd.get_name_and_type();
                setters.push(
                    OperationDecl {
                        kind: OpKind::SetOptional,
                        receiver: terminal,
                        name: fd.ident.clone(),
                        param: Some(param),
                        output: self.final_builder_name(),
                        moved_fields: Vec::new(),
                        absent_fields: Vec::new(),
                    },
                );
            }
            i += 1;
        }
        proof {
            assert(self.fields@.take(self.fields@.len() as int) =~= self.fields@);
        }
        setters
    }
}

impl BetterBuilderGenerator {
    /// The terminal part of the derivation: the terminal stage type
    /// holding every field, one setter per optional field, the finalize
    /// operation that transfers every field in original declaration
    /// order, and the entry-point factory (which starts at the first
    /// required-field stage, or at the terminal stage when no field is
    /// required).
    pub fn generate_final_builder(&self) -> (r: Vec<Decl>)
        ensures
            ({
                let m = optional_fds(self.fields@).len() as int;
                let term = final_name(self.struct_name@);
                &&& r@.len() == m + 3
                &&& (r@[0] matches Decl::Stage(s) && is_stage_decl(
                    s,
                    self.visibility@,
                    term,
                    self.fields@.map_values(|fd: FieldData| fd_view(fd)),
                ))
                &&& forall|j: int|
                    0 <= j < m ==> (#[trigger] r@[1 + j] matches Decl::Operation(op)
                        && is_setter_op(
                        op,
                        term,
                        optional_fds(self.fields@)[j].ident@,
                        ty_text(optional_fds(self.fields@)[j].ty),
                    ))
                &&& (r@[1 + m] matches Decl::Operation(op) && is_build_op(
                    op,
                    term,
                    self.struct_name@,
                    self.decl_order@.map_values(|nm: String| nm@),
                ))
                &&& (r@[2 + m] matches Decl::Operation(op) && (if self.fields@.len() > 0
                    && !spec_is_optional(self.fields@[0].ty) {
                    is_factory_op(
                        op,
                        self.struct_name@,
                        stage_name_of(self.fields@[0], self.struct_name@),
                        Seq::empty(),
                    )
                } else {
                    is_factory_op(
                        op,
                        self.struct_name@,
                        term,
                        optional_fds(self.fields@).map_values(|fd: FieldData| fd.ident@),
                    )
                }))
            }),
    {
        let builder_name = self.final_builder_name();

        // The terminal stage type, carrying every field.
        let mut struct_fields: Vec<GeneratedField> = Vec::new();
        let mut i: usize = 0;
        while i < self.fields.len()
            invariant
                i <= self.fields@.len(),
                struct_fields@.len() == i,
                forall|j: int|
                    0 <= j < i ==> (#[trigger] struct_fields@[j]).name@ == self.fields@[j].ident@
                        && struct_fields@[j].ty@ == ty_text(self.fields@[j].ty),
            decreases self.fields@.len() - i,
        {
            struct_fields.push(self.fields[i].get_name_and_type());
            i += 1;
        }
        let mut decls: Vec<Decl> = Vec::new();
        decls.push(
            Decl::Stage(
                StageDecl {
                    vis: self.visibility.clone(),
                    name: builder_name.clone(),
                    fields: struct_fields,
                },
            ),
        );

        // One setter per optional field.
        let mut setters = self.generate_optional_setters();
        let ghost m = optional_fds(self.fields@).len() as int;
        let ghost setters_seq = setters@;
        let ghost stage0 = decls@[0];
        let m_exec = setters.len();
        let mut j: usize = 0;
        while j < m_exec
            invariant
                setters_seq.len() == m,
                m_exec as int == m,
                j <= m_exec,
                j + setters@.len() == m,
                setters@ == setters_seq.skip(j as int),
                decls@.len() == 1 + j,
                forall|t: int|
                    0 <= t < j ==> (#[trigger] decls@[1 + t] matches Decl::Operation(op) && op
                        == setters_seq[t]),
                decls@[0] == stage0,
            decreases m_exec - j,
        {
            proof {
                assert(setters_seq.skip(j as int).skip(1) =~= setters_seq.skip(j as int + 1));
                assert(setters_seq.skip(j as int)[0] == setters_seq[j as int]);
            }
            let op = setters.remove(0);
            decls.push(Decl::Operation(op));
            j += 1;
        }

        // The finalize operation, transferring every field in original
        // declaration order.
        let mut moved: Vec<String> = Vec::new();
        let mut t: usize = 0;
        while t < self.decl_order.len()
            invariant
                t <= self.decl_order@.len(),
                moved@.len() == t,
                forall|u: int| 0 <= u < t ==> #[trigger] moved@[u] == self.decl_order@[u],
            decreases self.decl_order@.len() - t,
        {
            moved.push(self.decl_order[t].clone());
            t += 1;
        }
        decls.push(
            Decl::Operation(
                OperationDecl {
                    kind: OpKind::Finalize,
                    receiver: builder_name.clone(),
                    name: String::from_str("build"),
                    param: None,
                    output: self.struct_name.clone(),
                    moved_fields: moved,
                    absent_fields: Vec::new(),
                },
            ),
        );

        // The entry point: straight to the terminal stage when no field is
        // required, else to the stage of the first required field.
        let first_required = self.fields.len() > 0 && !self.fields[0].is_optional();
        if first_required {
            let first_name = self.fields[0].builder_name(&self.struct_name);
            decls.push(
                Decl::Operation(
                    OperationDecl {
                        kind: OpKind::Factory,
                        receiver: self.struct_name.clone(),
                        name: String::from_str("builder"),
                        param: None,
                        output: first_name,
                        moved_fields: Vec::new(),
                        absent_fields: Vec::new(),
                    },
                ),
            );
        } else {
            let absent = self.optional_names();
            decls.push(
                Decl::Operation(
                    OperationDecl {
                        kind: OpKind::Factory,
                        receiver: self.struct_name.clone(),
                        name: String::from_str("builder"),
                        param: None,
                        output: builder_name,
                        moved_fields: Vec::new(),
                        absent_fields: absent,
                    },
                ),
            );
        }
        decls
    }
}

/// Reads one field descriptor out of a vector by position, handing back an
/// owned copy of its parts.
fn required_get(v: &Vec<FieldData>, i: usize) -> (r: FieldData)
    requires
        i < v@.len(),
    ensures
        r == v@[i as int],
{
    let fd = &v[i];
    FieldData {
        ident: fd.ident.clone(),
        ty: fd.ty.clone(),
        builder_name_cache: match &fd.builder_name_cache {
            Some(n) => Some(n.clone()),
            None => None,
        },
    }
}

/// The required field descriptors among `fds`, in order.
pub open spec fn required_fds(fds: Seq<FieldData>) -> Seq<FieldData>
    decreases fds.len(),
{
    if fds.len() == 0 {
        Seq::empty()
    } else if !spec_is_optional(fds.last().ty) {
        required_fds(fds.drop_last()).push(fds.last())
    } else {
        required_fds(fds.drop_last())
    }
}

/// Every required field is non-optional, and every optional field is
/// optional, in the partition of a raw field list.
proof fn lemma_partition_classified(fields: Seq<RawField>)
    ensures
        forall|i: int|
            0 <= i < spec_required(fields).len() ==> !spec_is_optional(
                #[trigger] spec_required(fields)[i].ty,
            ),
        forall|i: int|
            0 <= i < spec_optional(fields).len() ==> spec_is_optional(
                #[trigger] spec_optional(fields)[i].ty,
            ),
    decreases fields.len(),
{
    if fields.len() > 0 {
        lemma_partition_classified(fields.drop_last());
    }
}

/// On a field list already partitioned required-first at position `k`,
/// the required fields are exactly the first `k` and the optional fields
/// exactly the rest.
proof fn lemma_fds_partitioned(fds: Seq<FieldData>, k: int)
    requires
        0 <= k <= fds.len(),
        forall|i: int| 0 <= i < k ==> !spec_is_optional(#[trigger] fds[i].ty),
        forall|i: int| k <= i < fds.len() ==> spec_is_optional(#[trigger] fds[i].ty),
    ensures
        required_fds(fds) == fds.take(k),
        optional_fds(fds) == fds.skip(k),
    decreases fds.len(),
{
    if fds.len() == 0 {
        assert(fds.take(k) =~= Seq::<FieldData>::empty());
        assert(fds.skip(k) =~= Seq::<FieldData>::empty());
    } else if k == fds.len() {
        lemma_fds_partitioned(fds.drop_last(), k - 1);
        assert(fds.drop_last().take(k - 1) =~= fds.drop_last());
        assert(required_fds(fds) =~= fds.take(k)) by {
            assert(fds.take(k) =~= fds.drop_last().push(fds.last()));
        }
        assert(fds.drop_last().skip(k - 1) =~= Seq::<FieldData>::empty());
        assert(fds.skip(k) =~= Seq::<FieldData>::empty());
    } else {
        lemma_fds_partitioned(fds.drop_last(), k);
        assert(fds.drop_last().take(k) =~= fds.take(k));
        assert(fds.skip(k) =~= fds.drop_last().skip(k).push(fds.last()));
    }
}

proof fn lemma_partition_lens(fields: Seq<RawField>)
    ensures
        spec_required(fields).len() + spec_optional(fields).len() == fields.len(),
    decreases fields.len(),
{
    if fields.len() > 0 {
        lemma_partition_lens(fields.drop_last());
    }
}

/// The whole generated output for an accepted input, in emission order:
/// for each required field, in partitioned order, its stage type and its
/// forwarding operation; then the terminal stage holding every field, one
/// setter per optional field, the finalize operation transferring every
/// field in original declaration order, and the entry-point factory.
pub open spec fn output_matches(decls: Seq<Decl>, input: RecordInput) -> bool {
    let fields = input_fields(input.data);
    let req = spec_required(fields);
    let opt = spec_optional(fields);
    let k = req.len() as int;
    let m = opt.len() as int;
    let names = req_names(fields);
    let sname = input.ident@;
    let term = final_name(sname);
    &&& decls.len() == 2 * k + m + 3
    &&& forall|i: int|
        0 <= i < k ==> (#[trigger] decls[2 * i] matches Decl::Stage(s) && is_stage_decl(
            s,
            input.vis@,
            chain_name(sname, names, i),
            req.take(i).map_values(|rf: RawField| rf_view(rf)),
        ))
    &&& forall|i: int|
        0 <= i < k ==> (#[trigger] decls[2 * i + 1] matches Decl::Operation(op) && is_forward_op(
            op,
            chain_name(sname, names, i),
            names[i],
            ty_text(req[i].ty),
            if i + 1 < k {
                chain_name(sname, names, i + 1)
            } else {
                term
            },
            names.take(i),
            if i + 1 < k {
                Seq::empty()
            } else {
                opt.map_values(|rf: RawField| rf.ident->0@)
            },
        ))
    &&& (decls[2 * k] matches Decl::Stage(s) && is_stage_decl(
        s,
        input.vis@,
        term,
        (req + opt).map_values(|rf: RawField| rf_view(rf)),
    ))
    &&& forall|j: int|
        0 <= j < m ==> (#[trigger] decls[2 * k + 1 + j] matches Decl::Operation(op)
            && is_setter_op(op, term, opt[j].ident->0@, ty_text(opt[j].ty)))
    &&& (decls[2 * k + 1 + m] matches Decl::Operation(op) && is_build_op(
        op,
        term,
        sname,
        fields.map_values(|rf: RawField| rf.ident->0@),
    ))
    &&& (decls[2 * k + 2 + m] matches Decl::Operation(op) && (if k > 0 {
        is_factory_op(op, sname, chain_name(sname, names, 0), Seq::empty())
    } else {
        is_factory_op(op, sname, term, opt.map_values(|rf: RawField| rf.ident->0@))
    }))
}

/// Law of the chain shape: a record with N required fields generates
/// exactly N non-terminal stages: the declarations at the even positions
/// before the terminal stage's, and no others — every remaining position
/// holds an operation. They form one single, unbranched, linear chain:
/// the one operation declared on stage i consumes exactly that stage and
/// produces stage i + 1's type, and the operation of the last one
/// produces the terminal stage's type.
pub proof fn lemma_chain_linear(decls: Seq<Decl>, input: RecordInput)
    requires
        output_matches(decls, input),
    ensures
        ({
            let fields = input_fields(input.data);
            let k = spec_required(fields).len() as int;
            let m = spec_optional(fields).len() as int;
            &&& decls.len() == 2 * k + m + 3
            &&& forall|i: int| 0 <= i < k ==> (#[trigger] decls[2 * i]) is Stage
            &&& decls[2 * k] is Stage
            &&& forall|i: int|
                0 <= i < decls.len() && i % 2 == 1 && i < 2 * k ==> (#[trigger] decls[i])
                    is Operation
            &&& forall|i: int|
                2 * k < i < decls.len() ==> (#[trigger] decls[i]) is Operation
            &&& forall|i: int|
                0 <= i < k ==> ((#[trigger] decls[2 * i + 1])->Operation_0.receiver@ == decls[2
                    * i]->Stage_0.name@ && decls[2 * i + 1]->Operation_0.output@ == (if i + 1 < k {
                    decls[2 * (i + 1)]->Stage_0.name@
                } else {
                    decls[2 * k]->Stage_0.name@
                }))
        }),
{
    let fields = input_fields(input.data);
    let k = spec_required(fields).len() as int;
    let m = spec_optional(fields).len() as int;
    assert forall|i: int|
        0 <= i < decls.len() && i % 2 == 1 && i < 2 * k implies (#[trigger] decls[i])
        is Operation by {
        let t = (i - 1) / 2;
        assert(i == 2 * t + 1);
        assert(0 <= t < k);
        assert(decls[2 * t + 1] is Operation);
    }
    assert forall|i: int| 2 * k < i < decls.len() implies (#[trigger] decls[i]) is Operation by {
        if i < 2 * k + 1 + m {
            let j = i - (2 * k + 1);
            assert(0 <= j < m);
            assert(decls[2 * k + 1 + j] is Operation);
        } else if i == 2 * k + 1 + m {
            assert(decls[2 * k + 1 + m] is Operation);
        } else {
            assert(i == 2 * k + 2 + m);
            assert(decls[2 * k + 2 + m] is Operation);
        }
    }
}

/// Law of collision numbering, at the output: two generated stages whose
/// required fields' case-converted candidate base names collide never
/// share a type name.
pub proof fn lemma_output_colliding_stages_distinct(
    decls: Seq<Decl>,
    input: RecordInput,
    i: int,
    j: int,
)
    requires
        output_matches(decls, input),
        0 <= i < j < spec_required(input_fields(input.data)).len(),
        bases_of(input.ident@, req_names(input_fields(input.data)))[i] == bases_of(
            input.ident@,
            req_names(input_fields(input.data)),
        )[j],
    ensures
        decls[2 * i]->Stage_0.name@ != decls[2 * j]->Stage_0.name@,
{
    let names = req_names(input_fields(input.data));
    lemma_colliding_names_distinct(input.ident@, names, i, j);
}

/// Runs one whole derivation: classification and partitioning, the linear
/// builder-stage chain (one stage and one forwarding operation per
/// required field), and the terminal part. A record with no required
/// fields gets no intermediate stage at all. A malformed input shape is
/// refused with its single diagnostic and no output.
pub fn implementation_better_builder(input: &RecordInput) -> (r: Result<Vec<Decl>, DeriveError>)
    requires
        input_fields(input.data).len() <= 65535,
    ensures
        r is Ok == spec_accepted(*input),
        input.data is NotStruct ==> r == Err::<Vec<Decl>, DeriveError>(DeriveError::StructRequired),
        input.data is Struct && !all_named(input_fields(input.data)) ==> r == Err::<
            Vec<Decl>,
            DeriveError,
        >(DeriveError::NamedFieldsRequired),
        r matches Ok(decls) ==> output_matches(decls@, *input),
{
    let struct_data = match BetterBuilderGenerator::new(input) {
        Ok(g) => g,
        Err(e) => {
            return Err(e);
        },
    };
    let ghost fields_seq = input_fields(input.data);
    let ghost req = spec_required(fields_seq);
    let ghost opt = spec_optional(fields_seq);
    let ghost names = req_names(fields_seq);
    let ghost sname = input.ident@;
    let ghost k = req.len() as int;
    let ghost m = opt.len() as int;
    proof {
        lemma_partition_lens(fields_seq);
        lemma_partition_classified(fields_seq);
        assert forall|i: int| 0 <= i < struct_data.fields@.len() implies spec_is_optional(
            #[trigger] struct_data.fields@[i].ty,
        ) == (i >= k) by {
            if i < k {
                assert(fd_matches(struct_data.fields@[i], req[i]));
            } else {
                assert(fd_matches(struct_data.fields@[i], opt[i - k]));
            }
        }
        lemma_fds_partitioned(struct_data.fields@, k);
    }

    // Count the required fields: they stand first after partitioning.
    let total = struct_data.fields.len();
    let mut kk: usize = 0;
    let mut c: usize = 0;
    proof {
        assert(struct_data.fields@.take(0) =~= Seq::<FieldData>::empty());
    }
    while c < total
        invariant
            c <= total,
            total == struct_data.fields@.len(),
            kk <= c,
            kk == required_fds(struct_data.fields@.take(c as int)).len(),
        decreases total - c,
    {
        proof {
            assert(struct_data.fields@.take(c as int + 1).drop_last() =~= struct_data.fields@.take(
                c as int,
            ));
            assert(struct_data.fields@.take(c as int + 1).last() == struct_data.fields@[c as int]);
        }
        if !struct_data.fields[c].is_optional() {
            kk += 1;
        }
        c += 1;
    }
    proof {
        assert(struct_data.fields@.take(total as int) =~= struct_data.fields@);
        assert(required_fds(struct_data.fields@) == struct_data.fields@.take(k));
        assert(struct_data.fields@.take(k).len() == k);
        assert(kk as int == k);
    }

    // One stage type and one forwarding operation per required field.
    let mut decls: Vec<Decl> = Vec::new();
    let mut index: usize = 0;
    while index < kk
        invariant
            generator_ok(struct_data, *input),
            input_fields(input.data).len() <= 65535,
            fields_seq == input_fields(input.data),
            req == spec_required(fields_seq),
            opt == spec_optional(fields_seq),
            names == req_names(fields_seq),
            sname == input.ident@,
            k == req.len() as int,
            kk as int == k,
            index <= kk,
            decls@.len() == 2 * index,
            forall|i: int|
                0 <= i < index ==> (#[trigger] decls@[2 * i] matches Decl::Stage(s)
                    && is_stage_decl(
                    s,
                    input.vis@,
                    chain_name(sname, names, i),
                    req.take(i).map_values(|rf: RawField| rf_view(rf)),
                )),
            forall|i: int|
                0 <= i < index ==> (#[trigger] decls@[2 * i + 1] matches Decl::Operation(op)
                    && is_forward_op(
                    op,
                    chain_name(sname, names, i),
                    names[i],
                    ty_text(req[i].ty),
                    if i + 1 < k {
                        chain_name(sname, names, i + 1)
                    } else {
                        final_name(sname)
                    },
                    names.take(i),
                    if i + 1 < k {
                        Seq::empty()
                    } else {
                        opt.map_values(|rf: RawField| rf.ident->0@)
                    },
                )),
        decreases kk - index,
    {
        proof {
            lemma_partition_lens(fields_seq);
            lemma_partition_classified(fields_seq);
            assert(fd_matches(struct_data.fields@[index as int], req[index as int]));
        }
        let fd = &struct_data.fields[index];
        let stage_name = fd.builder_name(&struct_data.struct_name);

        // The stage type carries the required fields already supplied.
        let mut carried: Vec<GeneratedField> = Vec::new();
        let mut j: usize = 0;
        while j < index
            invariant
                generator_ok(struct_data, *input),
                fields_seq == input_fields(input.data),
                req == spec_required(fields_seq),
                k == req.len() as int,
                j <= index,
                index < kk,
                kk as int == k,
                carried@.len() == j,
                forall|u: int|
                    0 <= u < j ==> (#[trigger] carried@[u]).name@ == req[u].ident->0@
                        && carried@[u].ty@ == ty_text(req[u].ty),
            decreases index - j,
        {
            proof {
                assert(fd_matches(struct_data.fields@[j as int], req[j as int]));
            }
            carried.push(struct_data.fields[j].get_name_and_type());
            j += 1;
        }
        decls.push(
            Decl::Stage(
                StageDecl {
                    vis: struct_data.visibility.clone(),
                    name: stage_name.clone(),
                    fields: carried,
                },
            ),
        );

        // Its single operation forwards to the next stage (or terminal).
        let mut moved: Vec<String> = Vec::new();
        let mut t: usize = 0;
        while t < index
            invariant
                generator_ok(struct_data, *input),
                fields_seq == input_fields(input.data),
                req == spec_required(fields_seq),
                names == req_names(fields_seq),
                k == req.len() as int,
                t <= index,
                index < kk,
                kk as int == k,
                moved@.len() == t,
                forall|u: int| 0 <= u < t ==> (#[trigger] moved@[u])@ == names[u],
            decreases index - t,
        {
            proof {
                assert(fd_matches(struct_data.fields@[t as int], req[t as int]));
            }
            moved.push(struct_data.fields[t].ident.clone());
            t += 1;
        }
        let param = fd.get_name_and_type();
        if index + 1 < kk {
            proof {
                assert(fd_matches(struct_data.fields@[index as int + 1], req[index as int + 1]));
            }
            let next_name = struct_data.fields[index + 1].builder_name(&struct_data.struct_name);
            decls.push(
                Decl::Operation(
                    OperationDecl {
                        kind: OpKind::Forward,
                        receiver: stage_name,
                        name: fd.ident.clone(),
                        param: Some(param),
                        output: next_name,
                        moved_fields: moved,
                        absent_fields: Vec::new(),
                    },
                ),
            );
        } else {
            proof {
                lemma_partition_classified(fields_seq);
                lemma_fds_partitioned(struct_data.fields@, k);
                assert forall|u: int| 0 <= u < opt.len() implies (#[trigger] optional_fds(
                    struct_data.fields@,
                )[u]).ident@ == opt[u].ident->0@ by {
                    assert(optional_fds(struct_data.fields@)[u] == struct_data.fields@[k + u]);
                    assert(fd_matches(struct_data.fields@[k + u], opt[u]));
                }
            }
            let final_builder_name = struct_data.final_builder_name();
            let absent = struct_data.optional_names();
            decls.push(
                Decl::Operation(
                    OperationDecl {
                        kind: OpKind::Forward,
                        receiver: stage_name,
                        name: fd.ident.clone(),
                        param: Some(param),
                        output: final_builder_name,
                        moved_fields: moved,
                        absent_fields: absent,
                    },
                ),
            );
        }
        index += 1;
    }

    // The terminal stage, its setters, finalize, and the entry point.
    proof {
        lemma_partition_lens(fields_seq);
        lemma_partition_classified(fields_seq);
        lemma_fds_partitioned(struct_data.fields@, k);
        assert(forall|u: int|
            0 <= u < opt.len() ==> fd_matches(#[trigger] struct_data.fields@[k + u], opt[u]));
    }
    let ghost chain_part = decls@;
    let mut tail = struct_data.generate_final_builder();
    let ghost tail_seq = tail@;
    decls.append(&mut tail);
    proof {
        assert(decls@ == chain_part + tail_seq);
        assert(optional_fds(struct_data.fields@) == struct_data.fields@.skip(k));
        assert(optional_fds(struct_data.fields@).len() == m);
        assert(decls@.len() == 2 * k + m + 3);
        assert(forall|i: int| 0 <= i < 2 * k ==> decls@[i] == chain_part[i]);
        assert(forall|i: int|
            0 <= i < tail_seq.len() ==> decls@[2 * k + i] == tail_seq[i]);
        // The terminal stage's field list matches the partitioned input.
        assert((req + opt).len() == struct_data.fields@.len());
        assert forall|i: int| 0 <= i < struct_data.fields@.len() implies fd_view(
            #[trigger] struct_data.fields@[i],
        ) == rf_view((req + opt)[i]) by {
            if i < k {
                assert(fd_matches(struct_data.fields@[i], req[i]));
                assert((req + opt)[i] == req[i]);
            } else {
                assert(fd_matches(struct_data.fields@[i], opt[i - k]));
                assert((req + opt)[i] == opt[i - k]);
            }
        }
        // Declaration order carries each field's name.
        assert(forall|i: int|
            0 <= i < fields_seq.len() ==> (#[trigger] struct_data.decl_order@[i])@
                == fields_seq[i].ident->0@);
        // The setter declarations stand right after the terminal stage.
        assert forall|j: int| 0 <= j < m implies (#[trigger] decls@[2 * k + 1 + j]
            matches Decl::Operation(op) && is_setter_op(
            op,
            final_name(sname),
            opt[j].ident->0@,
            ty_text(opt[j].ty),
        )) by {
            assert(decls@[2 * k + 1 + j] == tail_seq[1 + j]);
            assert(optional_fds(struct_data.fields@)[j] == struct_data.fields@[k + j]);
            assert(fd_matches(struct_data.fields@[k + j], opt[j]));
        }
    }
    Ok(decls)
}

} // verus!
