use vstd::prelude::*;
use vstd::string::*;
use crate::text::views;

verus! {

/// The contents one after another, each followed by a newline.
pub open spec fn rendered(contents: Seq<Seq<char>>) -> Seq<char>
    decreases contents.len(),
{
    if contents.len() == 0 {
        seq![]
    } else {
        rendered(contents.drop_last()) + contents.last() + seq!['\n']
    }
}

/// What is written for the matched templates, whose contents are given in order.
pub fn render_output(contents: &Vec<String>) -> (r: String)
    ensures
        r@ == rendered(views(contents@)),
{
    let newline = "\n";
    proof {
        reveal_strlit("\n");
    }
    let ghost cs = views(contents@);
    let mut r = String::new();
    let mut i: usize = 0;
    while i < contents.len()
        invariant
            cs == views(contents@),
            newline@ == seq!['\n'],
            i <= contents@.len(),
            r@ == rendered(cs.take(i as int)),
        decreases contents@.len() - i,
    {
        assert(cs.take(i + 1).drop_last() =~= cs.take(i as int));
        r.append(contents[i].as_str());
        r.append(newline);
        i = i + 1;
    }
    assert(cs.take(i as int) =~= cs);
    r
}

} // verus!
