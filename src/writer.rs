use vstd::prelude::*;
use crate::decompose::{all_resolve, decomposed, entries};
use crate::model::{Artifact, CompileResult, SourceFile};

verus! {

/// The name of the file that holds the artifact of contract `name`.
pub open spec fn artifact_file_of(name: Seq<char>) -> Seq<char> {
    name + ".json"@
}

/// The name of the file, inside the output directory, that `artifact` is
/// written to: its contract name with the extension `.json`.
pub fn artifact_file_name(artifact: &Artifact) -> (r: String)
    ensures
        r@ == artifact_file_of(artifact.contract_name@),
{
    let mut r = artifact.contract_name.clone();
    r.append(".json");
    r
}

/// The files that writing `arts` one after another leaves in the output
/// directory: each file name with the artifact whose record it holds. A
/// later artifact under the same file name replaces an earlier one.
pub open spec fn written(arts: Seq<Artifact>) -> Map<Seq<char>, Artifact>
    decreases arts.len(),
{
    if arts.len() == 0 {
        Map::empty()
    } else {
        written(arts.drop_last()).insert(artifact_file_of(arts.last().contract_name@), arts.last())
    }
}

proof fn lemma_file_of_injective(a: Seq<char>, b: Seq<char>)
    requires
        artifact_file_of(a) == artifact_file_of(b),
    ensures
        a == b,
{
    let s = ".json"@;
    assert((a + s).len() == a.len() + s.len());
    assert((b + s).len() == b.len() + s.len());
    assert(a =~= (a + s).subrange(0, a.len() as int));
    assert(b =~= (b + s).subrange(0, b.len() as int));
}

proof fn lemma_last_write_wins(arts: Seq<Artifact>, j: int)
    requires
        0 <= j < arts.len(),
        forall|k: int|
            j < k < arts.len() ==> (#[trigger] arts[k]).contract_name@ != arts[j].contract_name@,
    ensures
        written(arts).contains_key(artifact_file_of(arts[j].contract_name@)),
        written(arts)[artifact_file_of(arts[j].contract_name@)] == arts[j],
    decreases arts.len(),
{
    let init = arts.drop_last();
    if j < arts.len() - 1 {
        assert forall|k: int| j < k < init.len() implies (#[trigger] init[k]).contract_name@
            != init[j].contract_name@ by {
            assert(init[k] == arts[k]);
        }
        lemma_last_write_wins(init, j);
        assert(init[j] == arts[j]);
        let last = arts.last();
        assert(last == arts[arts.len() - 1]);
        if artifact_file_of(last.contract_name@) == artifact_file_of(arts[j].contract_name@) {
            lemma_file_of_injective(last.contract_name@, arts[j].contract_name@);
        }
    }
}

/// Two artifacts under the same contract name leave a single file, and it
/// holds the one written last among those under that name.
pub proof fn lemma_same_name_collides(arts: Seq<Artifact>, i: int, j: int)
    requires
        0 <= i < j < arts.len(),
        arts[i].contract_name@ == arts[j].contract_name@,
        forall|k: int|
            j < k < arts.len() ==> (#[trigger] arts[k]).contract_name@ != arts[j].contract_name@,
    ensures
        artifact_file_of(arts[i].contract_name@) == artifact_file_of(arts[j].contract_name@),
        written(arts).contains_key(artifact_file_of(arts[j].contract_name@)),
        written(arts)[artifact_file_of(arts[i].contract_name@)] == arts[j],
{
    lemma_last_write_wins(arts, j);
}

/// A response that reports no contract, as the compiler gives for no source
/// files, decomposes without error into no artifact, and writing those
/// leaves the output directory empty.
pub proof fn lemma_nothing_to_write(out: CompileResult, files: Seq<SourceFile>, arts: Seq<Artifact>)
    requires
        out.contracts@.len() == 0,
        decomposed(out, files, arts),
    ensures
        all_resolve(out, files),
        arts.len() == 0,
        written(arts) == Map::<Seq<char>, Artifact>::empty(),
{
    assert(entries(out.contracts@).len() == 0);
}

} // verus!
