//! The outline of a document: its symbols, nested.
use vstd::prelude::*;
use vstd::string::StringExecFns;

use crate::model::Range;
use crate::server::Server;
use crate::sort::{Ranked, stable_sort, stable_sorted};
use crate::text::{decimal, join, join_strings, push_decimal, views};

verus! {

/// A symbol of a document with the symbols inside it. `kind` is the name of
/// the symbol's kind.
#[derive(Debug)]
pub struct DocumentSymbol {
    pub name: String,
    pub kind: String,
    pub range: Range,
    pub children: Vec<DocumentSymbol>,
}

/// The place of a symbol in its list, with the line on which it starts.
#[derive(Clone, Copy, Debug, PartialEq, Eq, Structural)]
pub struct Place {
    pub line: u32,
    pub index: usize,
}

impl Ranked for Place {
    /// By line.
    open spec fn before(&self, other: &Self) -> bool {
        self.line < other.line
    }

    proof fn lemma_order(a: &Self, b: &Self, c: &Self) {
    }

    fn precedes(&self, other: &Self) -> (r: bool) {
        self.line < other.line
    }
}

/// The places of the symbols `dss`, in the order of the list.
pub open spec fn places(dss: Seq<DocumentSymbol>) -> Seq<Place> {
    Seq::new(dss.len(), |i: int| Place { line: dss[i].range.start.line, index: i as usize })
}

/// The line for a symbol inside the symbols named in `prefix`, in the
/// document with the path `path`.
pub open spec fn nested_line(path: Seq<char>, prefix: Seq<char>, ds: DocumentSymbol) -> Seq<char> {
    prefix + ds.name@ + " ("@ + ds.kind@ + "): "@ + path + ":"@ + decimal(
        (ds.range.start.line + 1) as nat,
    )
}

/// The lines for the symbols `dss` and all symbols inside them: the symbols
/// in the order of the lines on which they start, each followed by the
/// symbols inside it, whose lines name it before their own name.
pub open spec fn nested_lines(path: Seq<char>, prefix: Seq<char>, dss: Seq<DocumentSymbol>) -> Seq<
    Seq<char>,
>
    decreases dss, dss.len() + 1,
{
    nested_from(path, prefix, dss, stable_sorted(places(dss)), dss.len())
}

/// The lines for the first `k` symbols of `dss` in the order `order`, and
/// all symbols inside them.
pub open spec fn nested_from(
    path: Seq<char>,
    prefix: Seq<char>,
    dss: Seq<DocumentSymbol>,
    order: Seq<Place>,
    k: nat,
) -> Seq<Seq<char>>
    decreases dss, k,
{
    if k == 0 || k > order.len() {
        Seq::empty()
    } else {
        let i = order[k - 1].index as int;
        let before = nested_from(path, prefix, dss, order, (k - 1) as nat);
        if 0 <= i < dss.len() {
            let ds = dss[i];
            before + seq![nested_line(path, prefix, ds)] + nested_lines(
                path,
                prefix + ds.name@ + "::"@,
                ds.children@,
            )
        } else {
            before
        }
    }
}

/// The places of the symbols `dss`.
fn symbol_places(dss: &Vec<DocumentSymbol>) -> (r: Vec<Place>)
    ensures
        r@ == places(dss@),
{
    let mut r: Vec<Place> = Vec::new();
    let mut i: usize = 0;
    while i < dss.len()
        invariant
            i <= dss@.len(),
            r@ == places(dss@).take(i as int),
        decreases dss@.len() - i,
    {
        r.push(Place { line: dss[i].range.start.line, index: i });
        i += 1;
    }
    assert(places(dss@).take(dss@.len() as int) == places(dss@));
    r
}

/// Appends the lines for the symbols `dss` and all symbols inside them to
/// `out`.
pub fn nested_symbols(path: &str, prefix: &str, dss: &Vec<DocumentSymbol>, out: &mut Vec<String>)
    ensures
        views(final(out)@) == views(old(out)@) + nested_lines(path@, prefix@, dss@),
    decreases dss,
{
    let order = stable_sort(symbol_places(dss));
    proof {
        crate::sort::lemma_stable_sorted(places(dss@));
    }
    let mut k: usize = 0;
    assert(views(out@) == views(old(out)@) + Seq::<Seq<char>>::empty());
    while k < order.len()
        invariant
            k <= order@.len(),
            order@ == stable_sorted(places(dss@)),
            order@.len() == dss@.len(),
            views(out@) == views(old(out)@) + nested_from(path@, prefix@, dss@, order@, k as nat),
        decreases order@.len() - k,
    {
        let i = order[k].index;
        if i < dss.len() {
            let ds = &dss[i];
            let mut line = String::from_str(prefix);
            line.append(ds.name.as_str());
            line.append(" (");
            line.append(ds.kind.as_str());
            line.append("): ");
            line.append(path);
            line.append(":");
            push_decimal(&mut line, ds.range.start.line as u64 + 1);
            let ghost before = out@;
            out.push(line);
            assert(views(out@) == views(before).push(line@));
            let mut inner = String::from_str(prefix);
            inner.append(ds.name.as_str());
            inner.append("::");
            nested_symbols(path, inner.as_str(), &ds.children, out);
        }
        k += 1;
    }
}

impl Server {
    /// An outline came for the document with the path `path`: the lines of
    /// its symbols become the output. An empty outline leaves the output as
    /// it is.
    pub fn on_outline(&mut self, path: &str, dss: &Vec<DocumentSymbol>)
        ensures
            ({
                let ls = nested_lines(path@, Seq::empty(), dss@);
                if ls.len() > 0 {
                    final(self).output@ == join(ls, "\n"@, ls.len())
                } else {
                    final(self).output == old(self).output
                }
            }),
            crate::server::same_but_output(*final(self), *old(self)),
    {
        let mut o: Vec<String> = Vec::new();
        let empty = String::new();
        assert(views(o@) == Seq::<Seq<char>>::empty());
        nested_symbols(path, empty.as_str(), dss, &mut o);
        assert(views(o@) == nested_lines(path@, Seq::empty(), dss@));
        if o.len() > 0 {
            self.output = join_strings(&o, "\n");
        }
    }
}

} // verus!
