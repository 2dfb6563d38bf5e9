//! How a symbol is written: `'name` for a global symbol, and the namespace's
//! own text, `::` and the name for a local one.

use vstd::prelude::*;
use vstd::string::StringExecFns;

verus! {

/// The shape of a symbol as it is written.
pub enum FormatView {
    /// A name in the global namespace.
    Global(Seq<char>),
    /// A name and the namespace it is local to.
    Local(Seq<char>, Box<FormatView>),
    /// A namespace without a name.
    Anonymous,
}

impl FormatView {
    /// The text of the symbol: the chain of names from the root down, the
    /// root marked by an apostrophe and the levels parted by `::`.
    pub open spec fn text(self) -> Seq<char>
        decreases self,
    {
        match self {
            FormatView::Global(name) => seq!['\''] + name,
            FormatView::Local(name, namespace) => namespace.text() + seq![':', ':'] + name,
            FormatView::Anonymous => seq!['\'', '_'],
        }
    }
}

/// A symbol laid out for writing, borrowing its names.
#[derive(Debug)]
pub enum SymbolFormat<'a> {
    Global(&'a str),
    Local(&'a str, Box<SymbolFormat<'a>>),
    Anonymous,
}

impl<'a> View for SymbolFormat<'a> {
    type V = FormatView;

    open spec fn view(&self) -> FormatView {
        self.shape()
    }
}

impl<'a> SymbolFormat<'a> {
    /// The same layout with the names as sequences of characters.
    pub open spec fn shape(&self) -> FormatView
        decreases self,
    {
        match self {
            SymbolFormat::Global(name) => FormatView::Global(name@),
            SymbolFormat::Local(name, namespace) => FormatView::Local(
                name@,
                Box::new(namespace.shape()),
            ),
            SymbolFormat::Anonymous => FormatView::Anonymous,
        }
    }

    /// A copy of the layout, borrowing the same names.
    pub fn duplicate(&self) -> (r: SymbolFormat<'a>)
        ensures
            r@ == self@,
        decreases self,
    {
        match self {
            SymbolFormat::Global(name) => SymbolFormat::Global(name),
            SymbolFormat::Local(name, namespace) => SymbolFormat::Local(
                name,
                Box::new(namespace.duplicate()),
            ),
            SymbolFormat::Anonymous => SymbolFormat::Anonymous,
        }
    }

    /// Writes the symbol out.
    pub fn to_text(&self) -> (r: String)
        ensures
            r@ == self@.text(),
        decreases self,
    {
        match self {
            SymbolFormat::Global(name) => {
                proof {
                    reveal_strlit("'");
                }
                let mut out = String::from_str("'");
                out.append(name);
                assert(out@ =~= self@.text());
                out
            },
            SymbolFormat::Local(name, namespace) => {
                proof {
                    reveal_strlit("::");
                }
                let mut out = namespace.to_text();
                out.append("::");
                out.append(name);
                assert(out@ =~= self@.text());
                out
            },
            SymbolFormat::Anonymous => {
                proof {
                    reveal_strlit("'_");
                }
                let out = String::from_str("'_");
                assert(out@ =~= self@.text());
                out
            },
        }
    }
}

impl<'a> Clone for SymbolFormat<'a> {
    fn clone(&self) -> (r: SymbolFormat<'a>)
        ensures
            r@ == self@,
    {
        self.duplicate()
    }
}

} // verus!
