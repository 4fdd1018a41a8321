//! Text as the `Debug` format shows it: what the library puts into its
//! messages where it names a path or a list of patterns.
use vstd::prelude::*;

verus! {

/// The text of `s` as the `Debug` format prints it: quoted and escaped.
pub uninterp spec fn debug_text(s: Seq<char>) -> Seq<char>;

/// Calls the `Debug` implementation of `str`, through `format!("{:?}", ..)`.
/// The result is that implementation's rendering of the characters of `s`.
#[verifier::external_body]
pub(crate) fn quoted(s: &str) -> (r: String)
    ensures
        r@ == debug_text(s@),
{
    format!("{:?}", s)
}

/// The texts of `items` as the `Debug` format prints each, with `, `
/// between them.
pub open spec fn debug_items(items: Seq<Seq<char>>) -> Seq<char>
    decreases items.len(),
{
    if items.len() == 0 {
        Seq::<char>::empty()
    } else if items.len() == 1 {
        debug_text(items[0])
    } else {
        debug_items(items.drop_last()) + ", "@ + debug_text(items.last())
    }
}

/// The list `items` as the `Debug` format prints a list of strings: the
/// items quoted, separated by `, ` and enclosed in square brackets.
pub open spec fn debug_list(items: Seq<Seq<char>>) -> Seq<char> {
    "["@ + debug_items(items) + "]"@
}

/// The list `items` as the `Debug` format prints a list of strings.
pub(crate) fn quoted_list(items: &Vec<String>) -> (r: String)
    ensures
        r@ == debug_list(items.deep_view()),
{
    let mut out = "[".to_owned();
    let mut i: usize = 0;
    assert(items.deep_view().take(0) =~= Seq::<Seq<char>>::empty());
    while i < items.len()
        invariant
            i <= items.len(),
            out@ == "["@ + debug_items(items.deep_view().take(i as int)),
        decreases items.len() - i,
    {
        proof {
            let next = items.deep_view().take(i + 1);
            assert(next.drop_last() =~= items.deep_view().take(i as int));
            assert(next.last() == items[i as int]@);
        }
        if i > 0 {
            out.append(", ");
        }
        let item = quoted(items[i].as_str());
        out.append(item.as_str());
        i += 1;
    }
    assert(items.deep_view().take(i as int) =~= items.deep_view());
    out.append("]");
    out
}

} // verus!
