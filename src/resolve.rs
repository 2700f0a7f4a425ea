use vstd::prelude::*;
use vstd::string::*;
use crate::alias::{resolved, AliasTable};
use crate::catalog::{entry_views, suffix, template_suffix, TemplateEntry};
use crate::text::{lower_of, lowercase, views};

verus! {

/// `term` asks for the file named `file_name`: the file's name, lowercased,
/// is the term's canonical form, lowercased, followed by the suffix.
pub open spec fn term_matches(
    pairs: Seq<(Seq<char>, Seq<char>)>,
    term: Seq<char>,
    file_name: Seq<char>,
) -> bool {
    lower_of(file_name) == lower_of(resolved(pairs, term)) + template_suffix()
}

/// One copy of `k` for each term, in term order, that asks for `file_name`.
pub open spec fn matches_for(
    pairs: Seq<(Seq<char>, Seq<char>)>,
    terms: Seq<Seq<char>>,
    file_name: Seq<char>,
    k: int,
) -> Seq<int>
    decreases terms.len(),
{
    if terms.len() == 0 {
        seq![]
    } else {
        matches_for(pairs, terms.drop_last(), file_name, k) + if term_matches(
            pairs,
            terms.last(),
            file_name,
        ) {
            seq![k]
        } else {
            seq![]
        }
    }
}

/// The positions of the requested files: for each file in order, for each
/// term in order, the file's position when the term asks for it.
pub open spec fn matched_of(
    pairs: Seq<(Seq<char>, Seq<char>)>,
    terms: Seq<Seq<char>>,
    files: Seq<Seq<char>>,
) -> Seq<int>
    decreases files.len(),
{
    if files.len() == 0 {
        seq![]
    } else {
        matched_of(pairs, terms, files.drop_last()) + matches_for(
            pairs,
            terms,
            files.last(),
            files.len() - 1,
        )
    }
}

/// The file names of a catalog, in order.
pub open spec fn file_names_of(catalog: Seq<TemplateEntry>) -> Seq<Seq<char>> {
    entry_views(catalog).map_values(|e: (Seq<char>, Seq<char>, int)| e.1)
}

/// Positions as integers.
pub open spec fn ints(v: Seq<usize>) -> Seq<int> {
    v.map_values(|x: usize| x as int)
}

/// Whether a lowercased file name is a lowercased term followed by the suffix.
pub fn folded_matches(folded_term: &str, folded_file: &str) -> (r: bool)
    ensures
        r == (folded_file@ == folded_term@ + template_suffix()),
{
    let mut wanted = String::from_str(folded_term);
    wanted.append(suffix());
    let file = String::from_str(folded_file);
    file == wanted
}

/// Whether `term`, after alias resolution, asks for the file `file_name`;
/// case does not matter.
pub fn matches_term(aliases: &AliasTable, term: &str, file_name: &str) -> (r: bool)
    requires
        aliases.wf(),
    ensures
        r == term_matches(aliases@, term@, file_name@),
{
    let canonical = aliases.resolve(term);
    let folded_term = lowercase(canonical.as_str());
    let folded_file = lowercase(file_name);
    folded_matches(folded_term.as_str(), folded_file.as_str())
}

/// The catalog positions of the files that `terms` ask for, in catalog order
/// and, for one file, in term order. A file asked for by two terms appears
/// twice; an empty result means that nothing matched.
pub fn resolve_terms(aliases: &AliasTable, terms: &Vec<String>, catalog: &Vec<TemplateEntry>) -> (r:
    Vec<usize>)
    requires
        aliases.wf(),
    ensures
        ints(r@) == matched_of(aliases@, views(terms@), file_names_of(catalog@)),
{
    let ghost files = file_names_of(catalog@);
    let ghost ts = views(terms@);
    let mut r: Vec<usize> = Vec::new();
    let mut i: usize = 0;
    while i < catalog.len()
        invariant
            files == file_names_of(catalog@),
            ts == views(terms@),
            aliases.wf(),
            i <= catalog@.len(),
            ints(r@) == matched_of(aliases@, ts, files.take(i as int)),
        decreases catalog@.len() - i,
    {
        let entry = &catalog[i];
        assert(entry.file_name@ == files[i as int]);
        let ghost before = ints(r@);
        let mut j: usize = 0;
        while j < terms.len()
            invariant
                files == file_names_of(catalog@),
                ts == views(terms@),
                aliases.wf(),
                i < catalog@.len(),
                j <= terms@.len(),
                entry.file_name@ == files[i as int],
                ints(r@) == before + matches_for(aliases@, ts.take(j as int), files[i as int], i as int),
            decreases terms@.len() - j,
        {
            assert(ts.take(j + 1).drop_last() =~= ts.take(j as int));
            assert(ts.take(j + 1).last() == terms@[j as int]@);
            let ghost prev = r@;
            if matches_term(aliases, terms[j].as_str(), entry.file_name.as_str()) {
                r.push(i);
                assert(ints(r@) =~= ints(prev).push(i as int));
            }
            j = j + 1;
            assert(ints(r@) =~= before + matches_for(aliases@, ts.take(j as int), files[i as int], i as int));
        }
        assert(ts.take(j as int) =~= ts);
        assert(files.take(i + 1).drop_last() =~= files.take(i as int));
        i = i + 1;
        assert(ints(r@) =~= matched_of(aliases@, ts, files.take(i as int)));
    }
    assert(files.take(i as int) =~= files);
    r
}

} // verus!
