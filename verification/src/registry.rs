//! The models that can be had, and the files each consists of.
use vstd::prelude::*;

use crate::model::{session_file_name, session_names, vocab_name, GigaamKind};
use crate::text::same_text;

verus! {

/// A file of a model: its name at the source, its name on disk and its size in
/// bytes.
#[derive(Debug, Clone, Copy)]
pub struct ModelFile {
    pub remote: &'static str,
    pub local: &'static str,
    pub size: u64,
}

/// A `ModelFile` with its names as sequences of characters.
#[verifier::ext_equal]
pub struct ModelFileView {
    pub remote: Seq<char>,
    pub local: Seq<char>,
    pub size: u64,
}

impl View for ModelFile {
    type V = ModelFileView;

    open spec fn view(&self) -> ModelFileView {
        ModelFileView { remote: self.remote@, local: self.local@, size: self.size }
    }
}

/// A model that can be had.
#[derive(Debug)]
pub struct ModelSpec {
    pub name: &'static str,
    pub kind: GigaamKind,
    pub files: Vec<ModelFile>,
    pub size_mb: u32,
    pub description: &'static str,
}

/// A `ModelSpec` with its texts and files as sequences.
#[verifier::ext_equal]
pub struct ModelSpecView {
    pub name: Seq<char>,
    pub kind: GigaamKind,
    pub files: Seq<ModelFileView>,
    pub size_mb: u32,
    pub description: Seq<char>,
}

/// The files as sequences.
pub open spec fn file_views(files: Seq<ModelFile>) -> Seq<ModelFileView> {
    files.map_values(|f: ModelFile| f@)
}

impl View for ModelSpec {
    type V = ModelSpecView;

    open spec fn view(&self) -> ModelSpecView {
        ModelSpecView {
            name: self.name@,
            kind: self.kind,
            files: file_views(self.files@),
            size_mb: self.size_mb,
            description: self.description@,
        }
    }
}

/// The specs as sequences.
pub open spec fn spec_views(specs: Seq<ModelSpec>) -> Seq<ModelSpecView> {
    specs.map_values(|s: ModelSpec| s@)
}

/// A file that has the same name at its source and on disk.
pub open spec fn same_named(name: Seq<char>, size: u64) -> ModelFileView {
    ModelFileView { remote: name, local: name, size }
}

/// The quantized CTC model, the faster of the two.
pub open spec fn ctc_spec() -> ModelSpecView {
    ModelSpecView {
        name: "gigaam-v3-e2e-ctc-int8"@,
        kind: GigaamKind::Ctc,
        files: seq![
            same_named("v3_e2e_ctc.int8.onnx"@, 224_891_000),
            same_named("v3_e2e_ctc_vocab.txt"@, 3_000),
        ],
        size_mb: 225,
        description: "GigaAM-v3 CTC (Сбер) — русский, быстрый, с пунктуацией"@,
    }
}

/// The quantized RNN-T model, the more accurate of the two.
pub open spec fn rnnt_spec() -> ModelSpecView {
    ModelSpecView {
        name: "gigaam-v3-e2e-rnnt-int8"@,
        kind: GigaamKind::Rnnt,
        files: seq![
            same_named("v3_e2e_rnnt_encoder.int8.onnx"@, 224_570_000),
            same_named("v3_e2e_rnnt_decoder.int8.onnx"@, 1_160_000),
            same_named("v3_e2e_rnnt_joint.int8.onnx"@, 690_000),
            same_named("v3_e2e_rnnt_vocab.txt"@, 12_000),
        ],
        size_mb: 226,
        description: "GigaAM-v3 RNN-T (Сбер) — русский, максимальная точность, с пунктуацией"@,
    }
}

/// The models that can be had.
pub open spec fn known_models() -> Seq<ModelSpecView> {
    seq![ctc_spec(), rnnt_spec()]
}

/// The first of `specs` with this name.
pub open spec fn find_in(specs: Seq<ModelSpecView>, name: Seq<char>) -> Option<ModelSpecView>
    decreases specs.len(),
{
    if specs.len() == 0 {
        None
    } else if specs.first().name == name {
        Some(specs.first())
    } else {
        find_in(specs.drop_first(), name)
    }
}

/// The model with this name, if it can be had.
pub open spec fn known_model(name: Seq<char>) -> Option<ModelSpecView> {
    find_in(known_models(), name)
}

/// The size of the files together.
pub open spec fn total_size(files: Seq<ModelFileView>) -> nat
    decreases files.len(),
{
    if files.len() == 0 {
        0
    } else {
        total_size(files.drop_last()) + files.last().size as nat
    }
}

/// A model is found by its name exactly where it stands in the list, and the
/// names differ.
pub proof fn models_are_found_by_name(i: int)
    requires
        0 <= i < known_models().len(),
    ensures
        known_model(known_models()[i].name) == Some(known_models()[i]),
        forall|j: int|
            0 <= j < known_models().len() && j != i ==> known_models()[i].name
                != #[trigger] known_models()[j].name,
{
    reveal_strlit("gigaam-v3-e2e-ctc-int8");
    reveal_strlit("gigaam-v3-e2e-rnnt-int8");
    assert(ctc_spec().name.len() != rnnt_spec().name.len());
    reveal_with_fuel(find_in, 3);
    let rest = known_models().drop_first();
    assert(rest.first() == rnnt_spec());
}

/// What a lookup finds has the name that was looked for and stands in the list.
pub proof fn found_model_is_known(specs: Seq<ModelSpecView>, name: Seq<char>) -> (i: int)
    requires
        find_in(specs, name) is Some,
    ensures
        0 <= i < specs.len(),
        find_in(specs, name) == Some(specs[i]),
        specs[i].name == name,
    decreases specs.len(),
{
    if specs.first().name == name {
        0
    } else {
        found_model_is_known(specs.drop_first(), name) + 1
    }
}

/// A model's files on disk are those that it is loaded from: the quantized file
/// of each of its networks, in order, and its vocabulary.
pub proof fn files_are_those_loaded(i: int)
    requires
        0 <= i < known_models().len(),
    ensures
        ({
            let m = known_models()[i];
            let sessions = session_names(m.kind);
            &&& m.files.len() == sessions.len() + 1
            &&& m.files.last().local == vocab_name(m.kind)
            &&& forall|k: int|
                0 <= k < sessions.len() ==> (#[trigger] m.files[k]).local == session_file_name(
                    sessions[k],
                    true,
                )
        }),
{
    reveal_strlit(".int8.onnx");
    if i == 0 {
        reveal_strlit("v3_e2e_ctc");
        reveal_strlit("v3_e2e_ctc.int8.onnx");
        assert(ctc_spec().files[0].local =~= session_file_name("v3_e2e_ctc"@, true));
    } else {
        reveal_strlit("v3_e2e_rnnt_encoder");
        reveal_strlit("v3_e2e_rnnt_decoder");
        reveal_strlit("v3_e2e_rnnt_joint");
        reveal_strlit("v3_e2e_rnnt_encoder.int8.onnx");
        reveal_strlit("v3_e2e_rnnt_decoder.int8.onnx");
        reveal_strlit("v3_e2e_rnnt_joint.int8.onnx");
        assert(rnnt_spec().files[0].local =~= session_file_name("v3_e2e_rnnt_encoder"@, true));
        assert(rnnt_spec().files[1].local =~= session_file_name("v3_e2e_rnnt_decoder"@, true));
        assert(rnnt_spec().files[2].local =~= session_file_name("v3_e2e_rnnt_joint"@, true));
    }
}

/// A model's size in megabytes is that of its files, rounded.
pub proof fn sizes_agree(i: int)
    requires
        0 <= i < known_models().len(),
    ensures
        ({
            let m = known_models()[i];
            m.size_mb * 1_000_000 - 500_000 <= total_size(m.files) <= m.size_mb * 1_000_000
                + 500_000
        }),
{
    lemma_total_sizes();
}

/// The sizes of the two models' files together.
pub proof fn lemma_total_sizes()
    ensures
        total_size(ctc_spec().files) == 224_894_000,
        total_size(rnnt_spec().files) == 226_432_000,
{
    reveal_with_fuel(total_size, 5);
    let c = ctc_spec().files;
    let r = rnnt_spec().files;
    assert(c.drop_last().last() == c[0]);
    assert(r.drop_last().last() == r[2]);
    assert(r.drop_last().drop_last().last() == r[1]);
    assert(r.drop_last().drop_last().drop_last().last() == r[0]);
}

fn same_name(name: &'static str, size: u64) -> (r: ModelFile)
    ensures
        r@ == same_named(name@, size),
{
    ModelFile { remote: name, local: name, size }
}

/// The models that can be had, in the order in which they are offered.
pub fn registry() -> (r: Vec<ModelSpec>)
    ensures
        spec_views(r@) == known_models(),
{
    let mut ctc: Vec<ModelFile> = Vec::new();
    ctc.push(same_name("v3_e2e_ctc.int8.onnx", 224_891_000));
    ctc.push(same_name("v3_e2e_ctc_vocab.txt", 3_000));
    assert(file_views(ctc@) =~= ctc_spec().files);
    let mut rnnt: Vec<ModelFile> = Vec::new();
    rnnt.push(same_name("v3_e2e_rnnt_encoder.int8.onnx", 224_570_000));
    rnnt.push(same_name("v3_e2e_rnnt_decoder.int8.onnx", 1_160_000));
    rnnt.push(same_name("v3_e2e_rnnt_joint.int8.onnx", 690_000));
    rnnt.push(same_name("v3_e2e_rnnt_vocab.txt", 12_000));
    assert(file_views(rnnt@) =~= rnnt_spec().files);
    let mut out: Vec<ModelSpec> = Vec::new();
    out.push(
        ModelSpec {
            name: "gigaam-v3-e2e-ctc-int8",
            kind: GigaamKind::Ctc,
            files: ctc,
            size_mb: 225,
            description: "GigaAM-v3 CTC (Сбер) — русский, быстрый, с пунктуацией",
        },
    );
    out.push(
        ModelSpec {
            name: "gigaam-v3-e2e-rnnt-int8",
            kind: GigaamKind::Rnnt,
            files: rnnt,
            size_mb: 226,
            description:
                "GigaAM-v3 RNN-T (Сбер) — русский, максимальная точность, с пунктуацией",
        },
    );
    assert(spec_views(out@) =~= known_models());
    out
}

/// The model with this name, if it can be had.
pub fn find_model(name: &str) -> (r: Option<ModelSpec>)
    ensures
        match r {
            Some(m) => known_model(name@) == Some(m@),
            None => known_model(name@) is None,
        },
{
    let mut specs = registry();
    while specs.len() > 0
        invariant
            find_in(spec_views(specs@), name@) == known_model(name@),
        decreases specs.len(),
    {
        let ghost before = specs@;
        let first = specs.remove(0);
        assert(spec_views(specs@) =~= spec_views(before).drop_first());
        assert(spec_views(before).first() == first@);
        if same_text(first.name, name) {
            return Some(first);
        }
    }
    None
}

/// The sizes of files add up.
pub proof fn sizes_add_up(a: Seq<ModelFileView>, b: Seq<ModelFileView>, file: ModelFileView)
    ensures
        total_size(a + b) == total_size(a) + total_size(b),
        total_size(seq![file]) == file.size,
        total_size(Seq::<ModelFileView>::empty()) == 0,
    decreases b.len(),
{
    reveal_with_fuel(total_size, 2);
    assert(seq![file].drop_last() =~= Seq::<ModelFileView>::empty());
    if b.len() == 0 {
        assert(a + b =~= a);
    } else {
        sizes_add_up(a, b.drop_last(), file);
        assert((a + b).drop_last() =~= a + b.drop_last());
        assert((a + b).last() == b.last());
    }
}

/// A model stands for its name, variant, files, size and description as they
/// are.
pub proof fn models_keep_their_data(s: ModelSpec, specs: Seq<ModelSpec>, i: int)
    ensures
        s@.name == s.name@ && s@.kind == s.kind && s@.size_mb == s.size_mb,
        s@.description == s.description@,
        s@.files.len() == s.files@.len(),
        0 <= i < s.files@.len() ==> {
            &&& s@.files[i].remote == s.files@[i].remote@
            &&& s@.files[i].local == s.files@[i].local@
            &&& s@.files[i].size == s.files@[i].size
        },
        spec_views(specs).len() == specs.len(),
        0 <= i < specs.len() ==> spec_views(specs)[i] == specs[i]@,
{
}

} // verus!
