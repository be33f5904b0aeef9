use vstd::prelude::*;
use crate::decompose::{find_source_file, first_file, has_file};
use crate::model::SourceFile;

verus! {

/// No two files of the mapping share a path.
pub open spec fn paths_unique(files: Seq<SourceFile>) -> bool {
    forall|i: int, j: int|
        0 <= i < j < files.len() ==> (#[trigger] files[i]).path@ != (#[trigger] files[j]).path@
}

/// Adds `file` to the source mapping, keyed by its path: a file already
/// held under that path is replaced in place, otherwise `file` goes last.
pub fn insert_source(sources: &mut Vec<SourceFile>, file: SourceFile)
    ensures
        has_file(old(sources)@, file.path@) ==> exists|j: int|
            first_file(old(sources)@, file.path@, j) && final(sources)@ == old(sources)@.update(
                j,
                file,
            ),
        !has_file(old(sources)@, file.path@) ==> final(sources)@ == old(sources)@.push(file),
        paths_unique(old(sources)@) ==> paths_unique(final(sources)@),
        has_file(final(sources)@, file.path@),
{
    let ghost before = sources@;
    let ghost p = file.path@;
    match find_source_file(sources, &file.path) {
        Some(j) => {
            sources[j] = file;
            proof {
                assert(sources@[j as int].path@ == p);
                assert forall|a: int, b: int|
                    0 <= a < b < sources@.len() && paths_unique(before) implies (
                    #[trigger] sources@[a]).path@ != (#[trigger] sources@[b]).path@ by {
                    if a == j {
                        assert(before[b].path@ != before[j as int].path@);
                    } else if b == j {
                        assert(before[a].path@ != before[j as int].path@);
                    } else {
                        assert(before[a] == sources@[a] && before[b] == sources@[b]);
                    }
                }
            }
        },
        None => {
            sources.push(file);
            proof {
                assert(sources@[before.len() as int].path@ == p);
                assert forall|a: int, b: int|
                    0 <= a < b < sources@.len() && paths_unique(before) implies (
                    #[trigger] sources@[a]).path@ != (#[trigger] sources@[b]).path@ by {
                    if b == before.len() {
                        assert(sources@[a] == before[a]);
                    } else {
                        assert(before[a] == sources@[a] && before[b] == sources@[b]);
                    }
                }
            }
        },
    }
}

} // verus!
