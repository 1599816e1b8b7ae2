//! S-expressions as the REPL's replies hold them, and reading them from text.

use crate::tokens;
use vstd::prelude::*;
use vstd::string::*;

verus! {

/// An s-expression.
#[derive(Debug)]
pub enum Sexp {
    /// The special value `#nil`.
    Nil,
    /// The empty list.
    Null,
    /// `#t` or `#f`.
    Bool(bool),
    /// A number, by its decimal text.
    Number(String),
    /// A string, by its contents.
    Text(String),
    /// A symbol, by its name.
    Symbol(String),
    /// A keyword, by its name.
    Keyword(String),
    /// A character, a byte vector or a vector, by its printed text.
    Opaque(String),
    /// A list of one or more items.
    List(List),
}

/// A list of one or more items.
#[derive(Debug)]
pub struct List {
    /// The first item.
    pub first: Box<Sexp>,
    /// The items after the first.
    pub others: Vec<Sexp>,
    /// What stands after the dot of a list that does not end in the empty list.
    pub dotted: Option<Box<Sexp>>,
    /// The printed text of the list.
    pub text: String,
    /// The printed text of the list without its first item.
    pub rest: String,
}

/// What an s-expression holds.
pub enum SexpView {
    Nil,
    Null,
    Bool(bool),
    Number(Seq<char>),
    Text(Seq<char>),
    Symbol(Seq<char>),
    Keyword(Seq<char>),
    Opaque(Seq<char>),
    List(ListView),
}

/// What a list holds.
pub struct ListView {
    pub first: Box<SexpView>,
    pub others: Seq<SexpView>,
    pub dotted: Option<Box<SexpView>>,
    pub text: Seq<char>,
    pub rest: Seq<char>,
}

impl Sexp {
    /// What the s-expression holds.
    pub open spec fn view(&self) -> SexpView
        decreases self,
    {
        match self {
            Sexp::Nil => SexpView::Nil,
            Sexp::Null => SexpView::Null,
            Sexp::Bool(b) => SexpView::Bool(*b),
            Sexp::Number(s) => SexpView::Number(s@),
            Sexp::Text(s) => SexpView::Text(s@),
            Sexp::Symbol(s) => SexpView::Symbol(s@),
            Sexp::Keyword(s) => SexpView::Keyword(s@),
            Sexp::Opaque(s) => SexpView::Opaque(s@),
            Sexp::List(l) => SexpView::List(l.view()),
        }
    }
}

impl List {
    /// What the list holds.
    pub open spec fn view(&self) -> ListView
        decreases self,
    {
        ListView {
            first: Box::new(self.first.view()),
            others: views(self.others@),
            dotted: match self.dotted {
                Some(s) => Some(Box::new(s.view())),
                None => None,
            },
            text: self.text@,
            rest: self.rest@,
        }
    }
}

/// What each of the s-expressions holds.
pub open spec fn views(s: Seq<Sexp>) -> Seq<SexpView>
    decreases s,
{
    Seq::new(
        s.len(),
        |i: int|
            if 0 <= i < s.len() {
                s[i].view()
            } else {
                arbitrary()
            },
    )
}

/// The s-expression type of the `lexpr` crate.
#[verifier::external_type_specification]
#[verifier::external_body]
pub struct ExValue(lexpr::Value);

/// The error of the `lexpr` crate's parser.
#[verifier::external_type_specification]
#[verifier::external_body]
pub struct ExParseError(lexpr::parse::Error);

/// What a `lexpr::Value` holds.
pub uninterp spec fn held(v: lexpr::Value) -> SexpView;

/// The text that a `lexpr::Value` prints as.
pub uninterp spec fn printed(v: lexpr::Value) -> Seq<char>;

/// The message that a `lexpr::parse::Error` prints as.
pub uninterp spec fn message_of(e: lexpr::parse::Error) -> Seq<char>;

/// The s-expression that `lexpr::from_str` reads from a text, or the message of its error.
pub uninterp spec fn parsed(text: Seq<char>) -> Result<SexpView, Seq<char>>;

/// `lexpr::from_str`: whether it reads an s-expression, and which, or what its error prints
/// as, depends on the text alone. Numbers whose digits or exponent 32 bits with a sign do not
/// count are left out: where overflow is checked, it panics on them.
pub assume_specification[ lexpr::from_str ](s: &str) -> (r: Result<
    lexpr::Value,
    lexpr::parse::Error,
>)
    requires
        tokens::exponents_fit(s@),
    ensures
        match r {
            Ok(v) => parsed(s@) == Ok::<SexpView, Seq<char>>(held(v)),
            Err(e) => parsed(s@) == Err::<SexpView, Seq<char>>(message_of(e)),
        },
;

/// The `Display` of `lexpr::parse::Error`: the message depends on the error alone.
#[verifier::external_body]
fn print_error(e: &lexpr::parse::Error) -> (r: String)
    ensures
        r@ == message_of(*e),
{
    e.to_string()
}

/// The `Display` of `lexpr::Value`: the printed text depends on the value alone.
#[verifier::external_body]
fn print(v: &lexpr::Value) -> (r: String)
    ensures
        r@ == printed(*v),
{
    v.to_string()
}

/// The outermost layer of a `lexpr::Value`.
enum Layer<'a> {
    Nil,
    Null,
    Bool(bool),
    Number(String),
    Text(String),
    Symbol(String),
    Keyword(String),
    Opaque,
    /// The items of the chain of cells, what ends it, and its second cell or end.
    Cells(Vec<&'a lexpr::Value>, &'a lexpr::Value, &'a lexpr::Value),
}

/// What a value with this outermost layer and this printed text holds.
spec fn layer_view(layer: Layer<'_>, text: Seq<char>) -> SexpView {
    match layer {
        Layer::Nil => SexpView::Nil,
        Layer::Null => SexpView::Null,
        Layer::Bool(b) => SexpView::Bool(b),
        Layer::Number(s) => SexpView::Number(s@),
        Layer::Text(s) => SexpView::Text(s@),
        Layer::Symbol(s) => SexpView::Symbol(s@),
        Layer::Keyword(s) => SexpView::Keyword(s@),
        Layer::Opaque => SexpView::Opaque(text),
        Layer::Cells(items, end, rest) => SexpView::List(
            ListView {
                first: Box::new(held(*items@[0])),
                others: Seq::new((items@.len() - 1) as nat, |i: int| held(*items@[i + 1])),
                dotted: if held(*end) is Null {
                    None
                } else {
                    Some(Box::new(held(*end)))
                },
                text,
                rest: printed(*rest),
            },
        ),
    }
}

/// Tells the variants of `lexpr::Value` apart. A number is given by its own
/// `Display`; of a cell, `Cons::to_ref_vec` gives the first fields of the chain
/// of cells that it begins, at least its own, and the second field of the last,
/// and `Cons::cdr` its own second field.
#[verifier::external_body]
fn outermost<'a>(v: &'a lexpr::Value) -> (r: Layer<'a>)
    ensures
        r matches Layer::Cells(items, _, _) ==> items@.len() > 0,
        layer_view(r, printed(*v)) == held(*v),
{
    match v {
        lexpr::Value::Nil => Layer::Nil,
        lexpr::Value::Null => Layer::Null,
        lexpr::Value::Bool(b) => Layer::Bool(*b),
        lexpr::Value::Number(n) => Layer::Number(n.to_string()),
        lexpr::Value::String(s) => Layer::Text(s.to_string()),
        lexpr::Value::Symbol(s) => Layer::Symbol(s.to_string()),
        lexpr::Value::Keyword(s) => Layer::Keyword(s.to_string()),
        lexpr::Value::Char(_) | lexpr::Value::Bytes(_) | lexpr::Value::Vector(_) => Layer::Opaque,
        lexpr::Value::Cons(c) => {
            let (items, end) = c.to_ref_vec();
            Layer::Cells(items, end, c.cdr())
        },
    }
}

/// The s-expression that a `lexpr::Value` holds.
fn from_value(v: &lexpr::Value) -> (s: Sexp)
    ensures
        s@ == held(*v),
    decreases held(*v),
{
    match outermost(v) {
        Layer::Nil => Sexp::Nil,
        Layer::Null => Sexp::Null,
        Layer::Bool(b) => Sexp::Bool(b),
        Layer::Number(s) => Sexp::Number(s),
        Layer::Text(s) => Sexp::Text(s),
        Layer::Symbol(s) => Sexp::Symbol(s),
        Layer::Keyword(s) => Sexp::Keyword(s),
        Layer::Opaque => Sexp::Opaque(print(v)),
        Layer::Cells(items, end, rest) => {
            let ghost whole = held(*v)->List_0;
            assert(decreases_to!(held(*v) => whole));
            assert(decreases_to!(held(*v) => *whole.first));
            let first = Box::new(from_value(items[0]));
            let mut others: Vec<Sexp> = Vec::new();
            for i in 1..items.len()
                invariant
                    held(*v) == SexpView::List(whole),
                    whole.others.len() == items@.len() - 1,
                    forall|j: int| 0 <= j < whole.others.len() ==> whole.others[j] == held(*items@[j + 1]),
                    others@.len() == i - 1,
                    forall|j: int| 0 <= j < i - 1 ==> (#[trigger] others@[j])@ == whole.others[j],
            {
                assert(decreases_to!(held(*v) => held(*v)->List_0));
                assert(decreases_to!(whole => whole.others));
                assert(decreases_to!(whole.others => whole.others[i - 1]));
                assert(whole.others[i - 1] == held(*items@[i as int]));
                others.push(from_value(items[i]));
            }
            let dotted = match outermost(end) {
                Layer::Null => None,
                _ => {
                    assert(decreases_to!(held(*v) => *whole.dotted->0));
                    Some(Box::new(from_value(end)))
                },
            };
            let list = List { first, others, dotted, text: print(v), rest: print(rest) };
            assert(views(list.others@) =~= whole.others);
            Sexp::List(list)
        },
    }
}

/// What reading a text gives: an s-expression, or a message where the text holds none, or
/// something more, or a number that cannot be counted.
pub open spec fn read_from(s: Seq<char>) -> Result<SexpView, Seq<char>> {
    if tokens::exponents_fit(s) {
        parsed(s)
    } else {
        Err("number out of range"@)
    }
}

/// What the outcome of reading a text holds.
pub open spec fn reading_view(r: Result<Sexp, String>) -> Result<SexpView, Seq<char>> {
    match r {
        Ok(s) => Ok(s@),
        Err(m) => Err(m@),
    }
}

/// Reads an s-expression from a text.
pub fn parse(s: &str) -> (r: Result<Sexp, String>)
    ensures
        reading_view(r) == read_from(s@),
{
    if !tokens::has_fitting_exponents(s) {
        return Err("number out of range".to_string());
    }
    match lexpr::from_str(s) {
        Ok(v) => Ok(from_value(&v)),
        Err(e) => Err(print_error(&e)),
    }
}

}
