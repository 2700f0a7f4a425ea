use vstd::prelude::*;
use vstd::string::*;
use crate::alias::{keys_of, AliasTable};
use crate::text::{chars_of, ends_with, has_suffix, lower_of, lowercase, opt_view, views};

verus! {

/// The suffix that marks a template file.
pub open spec fn template_suffix() -> Seq<char> {
    seq!['.', 'g', 'i', 't', 'i', 'g', 'n', 'o', 'r', 'e']
}

/// The template suffix as a string.
pub fn suffix() -> (r: &'static str)
    ensures
        r@ == template_suffix(),
{
    let s = ".gitignore";
    proof {
        reveal_strlit(".gitignore");
    }
    assert(s@ =~= template_suffix());
    s
}

/// The canonical name of a file whose name, lowercased, is `folded`: that
/// name without the suffix, if it ends with the suffix.
pub open spec fn canonical_of(folded: Seq<char>) -> Option<Seq<char>> {
    if ends_with(folded, template_suffix()) {
        Some(folded.subrange(0, folded.len() - template_suffix().len()))
    } else {
        None
    }
}

/// The canonical name for an already lowercased file name, if it is a template.
pub fn canonical_from_folded(folded: &str) -> (r: Option<String>)
    ensures
        opt_view(r) == canonical_of(folded@),
{
    let c = chars_of(folded);
    let sfx = chars_of(suffix());
    if has_suffix(&c, &sfx) {
        Some(String::from_str(folded.substring_char(0, c.len() - sfx.len())))
    } else {
        None
    }
}

/// The canonical name for a file name, if the file is a template.
pub fn canonical_name(file_name: &str) -> (r: Option<String>)
    ensures
        opt_view(r) == canonical_of(lower_of(file_name@)),
{
    let folded = lowercase(file_name);
    canonical_from_folded(folded.as_str())
}

/// One template of the catalog.
pub struct TemplateEntry {
    /// Lowercase name without the suffix.
    pub name: String,
    /// The file's name as found.
    pub file_name: String,
    /// Where the file stands in the list the catalog was built from.
    pub source: usize,
}

impl View for TemplateEntry {
    type V = (Seq<char>, Seq<char>, int);

    open spec fn view(&self) -> Self::V {
        (self.name@, self.file_name@, self.source as int)
    }
}

/// The entries of a catalog as (name, file name, source) triples.
pub open spec fn entry_views(c: Seq<TemplateEntry>) -> Seq<(Seq<char>, Seq<char>, int)> {
    c.map_values(|e: TemplateEntry| e@)
}

/// The catalog of a list of file names: one entry per template file, in
/// list order.
pub open spec fn catalog_of(files: Seq<Seq<char>>) -> Seq<(Seq<char>, Seq<char>, int)>
    decreases files.len(),
{
    if files.len() == 0 {
        seq![]
    } else {
        let prev = catalog_of(files.drop_last());
        match canonical_of(lower_of(files.last())) {
            Some(n) => prev.push((n, files.last(), files.len() - 1)),
            None => prev,
        }
    }
}

/// The catalog of the files named in `file_names`; others are skipped.
pub fn build_catalog(file_names: &Vec<String>) -> (r: Vec<TemplateEntry>)
    ensures
        entry_views(r@) == catalog_of(views(file_names@)),
{
    let ghost files = views(file_names@);
    let mut r: Vec<TemplateEntry> = Vec::new();
    let mut i: usize = 0;
    while i < file_names.len()
        invariant
            files == views(file_names@),
            i <= file_names@.len(),
            entry_views(r@) == catalog_of(files.take(i as int)),
        decreases file_names@.len() - i,
    {
        assert(files.take(i + 1).drop_last() =~= files.take(i as int));
        match canonical_name(file_names[i].as_str()) {
            Some(n) => {
                r.push(TemplateEntry { name: n, file_name: file_names[i].clone(), source: i });
            },
            None => {},
        }
        i = i + 1;
        assert(entry_views(r@) =~= catalog_of(files.take(i as int)));
    }
    assert(files.take(i as int) =~= files);
    r
}

/// Every catalog entry names a file of the list: its name with the suffix
/// put back is that file's name, lowercased.
pub proof fn lemma_catalog_names_reconstruct(files: Seq<Seq<char>>)
    ensures
        forall|k: int|
            0 <= k < catalog_of(files).len() ==> {
                let e = #[trigger] catalog_of(files)[k];
                &&& 0 <= e.2 < files.len()
                &&& e.1 == files[e.2]
                &&& e.0 + template_suffix() == lower_of(files[e.2])
            },
    decreases files.len(),
{
    if files.len() > 0 {
        let prev = files.drop_last();
        lemma_catalog_names_reconstruct(prev);
        let l = lower_of(files.last());
        if ends_with(l, template_suffix()) {
            assert(l.subrange(0, l.len() - template_suffix().len()) + template_suffix() =~= l);
        }
        assert forall|k: int| 0 <= k < catalog_of(files).len() implies {
            let e = #[trigger] catalog_of(files)[k];
            &&& 0 <= e.2 < files.len()
            &&& e.1 == files[e.2]
            &&& e.0 + template_suffix() == lower_of(files[e.2])
        } by {
            if k < catalog_of(prev).len() {
                assert(catalog_of(files)[k] == catalog_of(prev)[k]);
                assert(prev[catalog_of(prev)[k].2] == files[catalog_of(prev)[k].2]);
            }
        }
    }
}

/// The words that complete in the prompt: every template name, then every
/// alias, in that order.
pub fn completion_candidates(catalog: &Vec<TemplateEntry>, aliases: &AliasTable) -> (r: Vec<String>)
    ensures
        views(r@) == names_of(entry_views(catalog@)) + keys_of(aliases@),
{
    let mut r: Vec<String> = Vec::new();
    let mut i: usize = 0;
    while i < catalog.len()
        invariant
            i <= catalog@.len(),
            views(r@) == names_of(entry_views(catalog@)).take(i as int),
        decreases catalog@.len() - i,
    {
        let name = catalog[i].name.clone();
        assert(name@ == names_of(entry_views(catalog@))[i as int]);
        let ghost before = r@;
        r.push(name);
        assert(views(r@) =~= views(before).push(name@));
        i = i + 1;
        assert(views(r@) =~= names_of(entry_views(catalog@)).take(i as int));
    }
    let keys = aliases.keys();
    let mut j: usize = 0;
    while j < keys.len()
        invariant
            j <= keys@.len(),
            views(keys@) == keys_of(aliases@),
            views(r@) == names_of(entry_views(catalog@)) + keys_of(aliases@).take(j as int),
        decreases keys@.len() - j,
    {
        let key = keys[j].clone();
        assert(key@ == views(keys@)[j as int]);
        let ghost before = r@;
        r.push(key);
        assert(views(r@) =~= views(before).push(key@));
        j = j + 1;
        assert(views(r@) =~= names_of(entry_views(catalog@)) + keys_of(aliases@).take(j as int));
    }
    assert(keys_of(aliases@).take(j as int) =~= keys_of(aliases@));
    r
}

/// The canonical names of catalog entries, in order.
pub open spec fn names_of(c: Seq<(Seq<char>, Seq<char>, int)>) -> Seq<Seq<char>> {
    c.map_values(|e: (Seq<char>, Seq<char>, int)| e.0)
}

} // verus!
