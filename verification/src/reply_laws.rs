//! What a reply of the master REPL says, told by how the REPL writes it: each field under its own
//! key, read back as it was.

use crate::protocol;
use crate::protocol::{
    DisplayDataView, ReplResponseView, ResponseDataView, ResponseErrorView, SymbolInfoView,
};
use crate::sexp::{ListView, SexpView};
use crate::text;
use vstd::prelude::*;
use vstd::string::*;
use vstd::utf8::*;

verus! {

// ---------------------------------------------------------------------------
// How values are written

/// The value is a list of these items, and nothing follows them.
pub open spec fn holds_items(v: SexpView, items: Seq<SexpView>) -> bool {
    match v {
        SexpView::Null => items.len() == 0,
        SexpView::List(l) => l.dotted is None && items.len() > 0 && *l.first == items[0] && l.others
            == items.skip(1),
        _ => false,
    }
}

/// The value is a pair: a first item, and a second one after a dot.
pub open spec fn holds_pair(v: SexpView, first: SexpView, second: SexpView) -> bool {
    v matches SexpView::List(l) && *l.first == first && l.others.len() == 0 && l.dotted is Some
        && *l.dotted->0 == second
}

/// A text, written as a Lisp string: a backslash before each quote and each backslash.
pub open spec fn written(s: Seq<char>) -> SexpView {
    SexpView::Text(protocol::escaped(s))
}

/// `NIL`, as it is written for nothing.
pub open spec fn nil() -> SexpView {
    SexpView::Symbol("NIL"@)
}

/// A text, or `NIL`.
pub open spec fn written_opt(o: Option<Seq<char>>) -> SexpView {
    match o {
        Some(s) => written(s),
        None => nil(),
    }
}

/// A number, or `NIL`.
pub open spec fn written_number(o: Option<u32>) -> SexpView {
    match o {
        Some(n) => SexpView::Number(text::decimal(n as nat)),
        None => nil(),
    }
}

/// The items of a property list: each key after a colon, and its value.
pub open spec fn plist_items(entries: Seq<(Seq<char>, SexpView)>) -> Seq<SexpView> {
    Seq::new(
        2 * entries.len(),
        |i: int|
            if i % 2 == 0 {
                SexpView::Symbol(":"@ + entries[i / 2].0)
            } else {
                entries[i / 2].1
            },
    )
}

/// A key in capitals.
pub open spec fn is_plain_key(k: Seq<char>) -> bool {
    forall|i: int| 0 <= i < k.len() ==> ('A' <= #[trigger] k[i] <= 'Z' || k[i] == '-')
}

/// All keys are in capitals, and none occurs twice.
pub open spec fn plain_entries(entries: Seq<(Seq<char>, SexpView)>) -> bool {
    &&& forall|i: int| 0 <= i < entries.len() ==> is_plain_key(#[trigger] entries[i].0)
    &&& forall|i: int, j: int|
        0 <= i < j < entries.len() ==> #[trigger] entries[i].0 != #[trigger] entries[j].0
}

// ---------------------------------------------------------------------------
// Property lists

/// The items of a list are those it was written with.
pub proof fn items_are_read_back(v: SexpView, items: Seq<SexpView>)
    requires
        holds_items(v, items),
    ensures
        protocol::items_of(v) == Some(items),
{
    match v {
        SexpView::List(l) => {
            assert(seq![*l.first] + l.others =~= items);
        },
        _ => {
            assert(items =~= Seq::<SexpView>::empty());
        },
    }
}

/// A key is read alike as a keyword and as a symbol after colons, in upper or lower case.
pub proof fn plain_key_is_read(k: Seq<char>)
    requires
        is_plain_key(k),
    ensures
        protocol::key_of(SexpView::Symbol(":"@ + k)) == Some(k),
        protocol::key_of(SexpView::Keyword(k)) == Some(k),
{
    reveal_strlit(":");
    let s = ":"@ + k;
    assert(s.skip(1) =~= k);
    assert(protocol::without_colons(k) == k);
    assert(protocol::without_colons(s) == k);
    assert(is_ascii_chars(k));
    assert(k.map_values(|c: char| text::ascii_upper(c)) =~= k);
}

/// After the first `n` pairs of a property list each of their keys has its value, and there is no
/// other key.
proof fn pairs_are_read(entries: Seq<(Seq<char>, SexpView)>, n: nat)
    requires
        plain_entries(entries),
        n <= entries.len(),
    ensures
        ({
            let m = protocol::pairs_map(plist_items(entries), n);
            &&& forall|i: int|
                0 <= i < n ==> m.dom().contains(#[trigger] entries[i].0) && m[entries[i].0]
                    == entries[i].1
            &&& forall|k: Seq<char>| #[trigger]
                m.dom().contains(k) ==> exists|i: int| 0 <= i < n && #[trigger] entries[i].0 == k
        }),
    decreases n,
{
    if n > 0 {
        let before = (n - 1) as nat;
        pairs_are_read(entries, before);
        plain_key_is_read(entries[n - 1].0);
        let items = plist_items(entries);
        assert((2 * n - 2) % 2 == 0 && (2 * n - 2) / 2 == n - 1);
        assert((2 * n - 1) % 2 == 1 && (2 * n - 1) / 2 == n - 1);
        assert(items[2 * n - 2] == SexpView::Symbol(":"@ + entries[n - 1].0));
        assert(items[2 * n - 1] == entries[n - 1].1);
        let m0 = protocol::pairs_map(items, before);
        let m = protocol::pairs_map(items, n);
        assert(m == m0.insert(entries[n - 1].0, entries[n - 1].1));
        assert forall|i: int| 0 <= i < n implies m.dom().contains(#[trigger] entries[i].0)
            && m[entries[i].0] == entries[i].1 by {
            if i < n - 1 {
                assert(entries[i].0 != entries[n - 1].0);
            }
        }
        assert forall|k: Seq<char>| #[trigger] m.dom().contains(k) implies exists|i: int|
            0 <= i < n && #[trigger] entries[i].0 == k by {
            if k == entries[n - 1].0 {
                assert(entries[n - 1].0 == k);
            } else {
                assert(m0.dom().contains(k));
                let i = choose|i: int| 0 <= i < before && #[trigger] entries[i].0 == k;
                assert(entries[i].0 == k);
            }
        }
    }
}

/// A property list gives each of its keys the value after it, and has no other key.
pub proof fn plist_is_read_back(v: SexpView, entries: Seq<(Seq<char>, SexpView)>)
    requires
        plain_entries(entries),
        holds_items(v, plist_items(entries)),
    ensures
        protocol::plist(v) is Some,
        ({
            let m = protocol::plist(v)->0;
            &&& forall|i: int|
                0 <= i < entries.len() ==> m.dom().contains(#[trigger] entries[i].0)
                    && m[entries[i].0] == entries[i].1
            &&& forall|k: Seq<char>| #[trigger]
                m.dom().contains(k) ==> exists|i: int|
                    0 <= i < entries.len() && #[trigger] entries[i].0 == k
        }),
{
    items_are_read_back(v, plist_items(entries));
    assert(plist_items(entries).len() / 2 == entries.len());
    pairs_are_read(entries, entries.len());
}

/// Of two values for the same key the later one counts, whatever comes before it.
pub proof fn later_value_counts(items: Seq<SexpView>, key: SexpView, value: SexpView)
    requires
        items.len() % 2 == 0,
        protocol::key_of(key) is Some,
    ensures
        ({
            let all = items.push(key).push(value);
            let m = protocol::pairs_map(all, all.len() / 2);
            &&& m.dom().contains(protocol::key_of(key)->0)
            &&& m[protocol::key_of(key)->0] == value
            &&& forall|k: Seq<char>|
                k != protocol::key_of(key)->0 ==> (#[trigger] m.dom().contains(k)
                    == protocol::pairs_map(items, items.len() / 2).dom().contains(k))
        }),
{
    let all = items.push(key).push(value);
    let n = items.len() / 2;
    assert(all.len() / 2 == n + 1);
    same_beginning(items, all, n);
    assert(all[2 * (n + 1) - 2] == key);
    assert(all[2 * (n + 1) - 1] == value);
}

proof fn same_beginning(a: Seq<SexpView>, b: Seq<SexpView>, n: nat)
    requires
        2 * n <= a.len(),
        a.len() <= b.len(),
        forall|i: int| 0 <= i < a.len() ==> a[i] == b[i],
    ensures
        protocol::pairs_map(a, n) == protocol::pairs_map(b, n),
    decreases n,
{
    if n > 0 {
        same_beginning(a, b, (n - 1) as nat);
        assert(a[2 * n - 2] == b[2 * n - 2]);
        assert(a[2 * n - 1] == b[2 * n - 1]);
    }
}

// ---------------------------------------------------------------------------
// Values

/// A text is read back from the string that it is written as.
pub proof fn text_is_read_back(s: Seq<char>)
    ensures
        protocol::value_text(written(s)) == Some(s),
{
    protocol::unescape_undoes_escape(s);
}

/// `NIL` in any case, and the empty list, are nothing.
pub proof fn nil_is_nothing(name: Seq<char>)
    requires
        text::same_ignoring_case(name, "nil"@),
    ensures
        protocol::value_text(SexpView::Symbol(name)) is None,
        protocol::value_text(SexpView::Null) is None,
        protocol::value_text(SexpView::Nil) is None,
{
}

/// `NIL` is nothing.
pub proof fn nil_reads_as_nothing()
    ensures
        protocol::value_text(nil()) is None,
{
    reveal_strlit("NIL");
    reveal_strlit("nil");
    assert("NIL"@.map_values(|c: char| text::ascii_lower(c)) =~= "nil"@.map_values(
        |c: char| text::ascii_lower(c),
    ));
    nil_is_nothing("NIL"@);
}

/// A text or nothing is read back.
pub proof fn optional_is_read_back(o: Option<Seq<char>>)
    ensures
        protocol::value_text(written_opt(o)) == o,
{
    nil_reads_as_nothing();
    match o {
        Some(s) => {
            text_is_read_back(s);
        },
        None => {},
    }
}

/// A number or nothing is read back.
pub proof fn number_is_read_back(o: Option<u32>)
    ensures
        protocol::number_at(protocol::value_text(written_number(o))) == o,
{
    nil_reads_as_nothing();
    match o {
        Some(n) => {
            text::decimal_is_read_back(n as nat);
        },
        None => {},
    }
}

/// The texts in a list are those that it was written with, in order; what is nothing is left out.
pub proof fn texts_are_read_back(v: SexpView, texts: Seq<Seq<char>>)
    requires
        holds_items(v, texts.map_values(|s: Seq<char>| written(s))),
    ensures
        protocol::text_list(v) == texts,
{
    let items = texts.map_values(|s: Seq<char>| written(s));
    items_are_read_back(v, items);
    texts_of_items(texts);
}

proof fn texts_of_items(texts: Seq<Seq<char>>)
    ensures
        protocol::value_texts(texts.map_values(|s: Seq<char>| written(s))) == texts,
    decreases texts.len(),
{
    let items = texts.map_values(|s: Seq<char>| written(s));
    if texts.len() > 0 {
        let rest = texts.drop_last();
        texts_of_items(rest);
        assert(items.drop_last() =~= rest.map_values(|s: Seq<char>| written(s)));
        text_is_read_back(texts.last());
        assert(rest.push(texts.last()) =~= texts);
    } else {
        assert(protocol::value_texts(items) =~= texts);
    }
}

// ---------------------------------------------------------------------------
// Symbols

/// The items are the pairs of the parameters and their types, `NIL` for those without one.
pub open spec fn parameter_items(
    items: Seq<SexpView>,
    types: Seq<(Seq<char>, Option<Seq<char>>)>,
) -> bool {
    items.len() == types.len() && forall|i: int|
        0 <= i < types.len() ==> holds_pair(
            #[trigger] items[i],
            written(types[i].0),
            written_opt(types[i].1),
        )
}

/// Every type says something.
pub open spec fn types_say_something(types: Seq<(Seq<char>, Option<Seq<char>>)>) -> bool {
    forall|i: int|
        0 <= i < types.len() && (#[trigger] types[i]).1 is Some ==> types[i].1->0.len() > 0
            && types[i].1->0 != "NIL"@
}

/// How the parameters of a function are written: as a list of pairs, or as `NIL` where nothing is
/// known of them.
pub open spec fn writes_parameters(
    v: SexpView,
    types: Option<Seq<(Seq<char>, Option<Seq<char>>)>>,
) -> bool {
    match types {
        Some(t) => exists|items: Seq<SexpView>| #[trigger]
            parameter_items(items, t) && holds_items(v, items),
        None => v == nil(),
    }
}

proof fn parameters_of_items(
    items: Seq<SexpView>,
    types: Seq<(Seq<char>, Option<Seq<char>>)>,
)
    requires
        parameter_items(items, types),
        types_say_something(types),
    ensures
        protocol::params(items) == types,
    decreases types.len(),
{
    if types.len() > 0 {
        let rest = types.drop_last();
        assert forall|i: int| 0 <= i < rest.len() implies holds_pair(
            #[trigger] items.drop_last()[i],
            written(rest[i].0),
            written_opt(rest[i].1),
        ) by {
            assert(items.drop_last()[i] == items[i]);
        }
        assert forall|i: int| 0 <= i < rest.len() && (#[trigger] rest[i]).1 is Some implies
            rest[i].1->0.len() > 0 && rest[i].1->0 != "NIL"@ by {
            assert(rest[i] == types[i]);
        }
        parameters_of_items(items.drop_last(), rest);
        let n = types.len() - 1;
        assert(holds_pair(items[n], written(types[n].0), written_opt(types[n].1)));
        text_is_read_back(types[n].0);
        optional_is_read_back(types[n].1);
        assert(types[n].1 is Some ==> types[n].1->0.len() > 0 && types[n].1->0 != "NIL"@);
        assert(rest.push(types.last()) =~= types);
    } else {
        assert(items =~= Seq::<SexpView>::empty());
        assert(protocol::params(items) =~= types);
    }
}

/// The parameters of a function and their types are those that were written.
pub proof fn parameters_are_read_back(
    v: SexpView,
    types: Option<Seq<(Seq<char>, Option<Seq<char>>)>>,
)
    requires
        writes_parameters(v, types),
        types is Some ==> types_say_something(types->0),
    ensures
        protocol::param_types(v) == types,
{
    match types {
        Some(t) => {
            let items = choose|items: Seq<SexpView>| #[trigger]
                parameter_items(items, t) && holds_items(v, items);
            items_are_read_back(v, items);
            parameters_of_items(items, t);
        },
        None => {},
    }
}

/// The entries of a description of a symbol: each field under its own key.
pub open spec fn symbol_entries(info: SymbolInfoView, params: SexpView) -> Seq<
    (Seq<char>, SexpView),
> {
    seq![
        ("SYMBOL"@, written(info.symbol)),
        ("PACKAGE"@, written(info.package)),
        ("KIND"@, written(info.kind)),
        ("SOURCE"@, written_opt(info.source)),
        ("DOC"@, written_opt(info.doc)),
        ("PARAM-TYPES"@, params),
        ("SOURCE-FILE"@, written_opt(info.source_file)),
        ("SOURCE-LINE"@, written_number(info.source_line)),
        ("SOURCE-CHARACTER"@, written_number(info.source_character)),
    ]
}

/// The value describes a symbol: a property list with a field for each thing that is known.
pub open spec fn writes_symbol(v: SexpView, info: SymbolInfoView) -> bool {
    exists|params: SexpView| #[trigger]
        writes_parameters(params, info.param_types) && holds_items(
            v,
            plist_items(symbol_entries(info, params)),
        )
}

/// Every parameter type in a description says something.
pub open spec fn well_described(info: SymbolInfoView) -> bool {
    info.param_types is Some ==> types_say_something(info.param_types->0)
}

proof fn reveal_keys()
    ensures
        is_plain_key("ID"@),
        is_plain_key("SYMBOL"@),
        is_plain_key("PACKAGE"@),
        is_plain_key("KIND"@),
        is_plain_key("SOURCE"@),
        is_plain_key("DOC"@),
        is_plain_key("PARAM-TYPES"@),
        is_plain_key("SOURCE-FILE"@),
        is_plain_key("SOURCE-LINE"@),
        is_plain_key("SOURCE-CHARACTER"@),
        is_plain_key("SYMBOLS"@),
        is_plain_key("OUTPUT"@),
        is_plain_key("VALUES"@),
        is_plain_key("ERROR"@),
        is_plain_key("TRACEBACK"@),
        is_plain_key("DISPLAYS"@),
        is_plain_key("DATA"@),
        is_plain_key("PONG"@),
        is_plain_key("OK"@),
{
    reveal_strlit("ID");
    reveal_strlit("SYMBOL");
    reveal_strlit("PACKAGE");
    reveal_strlit("KIND");
    reveal_strlit("SOURCE");
    reveal_strlit("DOC");
    reveal_strlit("PARAM-TYPES");
    reveal_strlit("SOURCE-FILE");
    reveal_strlit("SOURCE-LINE");
    reveal_strlit("SOURCE-CHARACTER");
    reveal_strlit("SYMBOLS");
    reveal_strlit("OUTPUT");
    reveal_strlit("VALUES");
    reveal_strlit("ERROR");
    reveal_strlit("TRACEBACK");
    reveal_strlit("DISPLAYS");
    reveal_strlit("DATA");
    reveal_strlit("PONG");
    reveal_strlit("OK");
}


/// A number by which the keys are told apart: from their length and some of their characters.
spec fn key_code(k: Seq<char>) -> int {
    k.len() * 1000000000 + k[0] as int * 1000000 + k[1] as int * 1000 + (if k.len() > 7 {
        k[7] as int
    } else {
        0
    })
}

/// No two of the keys have the same number.
proof fn keys_differ()
    ensures
        key_code("ID"@) == 2073068000,
        key_code("SYMBOL"@) == 6083089000,
        key_code("PACKAGE"@) == 7080065000,
        key_code("KIND"@) == 4075073000,
        key_code("SOURCE"@) == 6083079000,
        key_code("DOC"@) == 3068079000,
        key_code("PARAM-TYPES"@) == 11080065089,
        key_code("SOURCE-FILE"@) == 11083079070,
        key_code("SOURCE-LINE"@) == 11083079076,
        key_code("SOURCE-CHARACTER"@) == 16083079067,
        key_code("SYMBOLS"@) == 7083089000,
        key_code("OUTPUT"@) == 6079085000,
        key_code("VALUES"@) == 6086065000,
        key_code("ERROR"@) == 5069082000,
        key_code("TRACEBACK"@) == 9084082067,
        key_code("DISPLAYS"@) == 8068073083,
        key_code("DATA"@) == 4068065000,
        key_code("PONG"@) == 4080079000,
        key_code("OK"@) == 2079075000,
{
    reveal_strlit("ID");
    reveal_strlit("SYMBOL");
    reveal_strlit("PACKAGE");
    reveal_strlit("KIND");
    reveal_strlit("SOURCE");
    reveal_strlit("DOC");
    reveal_strlit("PARAM-TYPES");
    reveal_strlit("SOURCE-FILE");
    reveal_strlit("SOURCE-LINE");
    reveal_strlit("SOURCE-CHARACTER");
    reveal_strlit("SYMBOLS");
    reveal_strlit("OUTPUT");
    reveal_strlit("VALUES");
    reveal_strlit("ERROR");
    reveal_strlit("TRACEBACK");
    reveal_strlit("DISPLAYS");
    reveal_strlit("DATA");
    reveal_strlit("PONG");
    reveal_strlit("OK");
    assert("ID"@.len() == 2 && "ID"@[0] == 'I' && "ID"@[1] == 'D');
    assert("SYMBOL"@.len() == 6 && "SYMBOL"@[0] == 'S' && "SYMBOL"@[1] == 'Y');
    assert("PACKAGE"@.len() == 7 && "PACKAGE"@[0] == 'P' && "PACKAGE"@[1] == 'A');
    assert("KIND"@.len() == 4 && "KIND"@[0] == 'K' && "KIND"@[1] == 'I');
    assert("SOURCE"@.len() == 6 && "SOURCE"@[0] == 'S' && "SOURCE"@[1] == 'O');
    assert("DOC"@.len() == 3 && "DOC"@[0] == 'D' && "DOC"@[1] == 'O');
    assert("PARAM-TYPES"@.len() == 11 && "PARAM-TYPES"@[0] == 'P' && "PARAM-TYPES"@[1] == 'A' && "PARAM-TYPES"@[7] == 'Y');
    assert("SOURCE-FILE"@.len() == 11 && "SOURCE-FILE"@[0] == 'S' && "SOURCE-FILE"@[1] == 'O' && "SOURCE-FILE"@[7] == 'F');
    assert("SOURCE-LINE"@.len() == 11 && "SOURCE-LINE"@[0] == 'S' && "SOURCE-LINE"@[1] == 'O' && "SOURCE-LINE"@[7] == 'L');
    assert("SOURCE-CHARACTER"@.len() == 16 && "SOURCE-CHARACTER"@[0] == 'S' && "SOURCE-CHARACTER"@[1] == 'O' && "SOURCE-CHARACTER"@[7] == 'C');
    assert("SYMBOLS"@.len() == 7 && "SYMBOLS"@[0] == 'S' && "SYMBOLS"@[1] == 'Y');
    assert("OUTPUT"@.len() == 6 && "OUTPUT"@[0] == 'O' && "OUTPUT"@[1] == 'U');
    assert("VALUES"@.len() == 6 && "VALUES"@[0] == 'V' && "VALUES"@[1] == 'A');
    assert("ERROR"@.len() == 5 && "ERROR"@[0] == 'E' && "ERROR"@[1] == 'R');
    assert("TRACEBACK"@.len() == 9 && "TRACEBACK"@[0] == 'T' && "TRACEBACK"@[1] == 'R' && "TRACEBACK"@[7] == 'C');
    assert("DISPLAYS"@.len() == 8 && "DISPLAYS"@[0] == 'D' && "DISPLAYS"@[1] == 'I' && "DISPLAYS"@[7] == 'S');
    assert("DATA"@.len() == 4 && "DATA"@[0] == 'D' && "DATA"@[1] == 'A');
    assert("PONG"@.len() == 4 && "PONG"@[0] == 'P' && "PONG"@[1] == 'O');
    assert("OK"@.len() == 2 && "OK"@[0] == 'O' && "OK"@[1] == 'K');
}

/// A description of a symbol is read back from the property list in which each field stands under
/// its own key.
pub proof fn symbol_is_read_back(v: SexpView, info: SymbolInfoView)
    requires
        writes_symbol(v, info),
        well_described(info),
    ensures
        protocol::plist(v) is Some,
        protocol::symbol_info(protocol::plist(v)->0) == info,
{
    let params = choose|params: SexpView| #[trigger]
        writes_parameters(params, info.param_types) && holds_items(
            v,
            plist_items(symbol_entries(info, params)),
        );
    let entries = symbol_entries(info, params);
    symbol_fields_are_read(v, entries, 0, info, params);
}

/// The entries from `at` on are those of a description.
spec fn has_symbol_entries(
    entries: Seq<(Seq<char>, SexpView)>,
    at: int,
    info: SymbolInfoView,
    params: SexpView,
) -> bool {
    0 <= at && at + 9 == entries.len() && entries.skip(at) =~= symbol_entries(info, params)
}

/// The number of the key of the entry `i` of a description.
spec fn symbol_key_code(i: int) -> int {
    if i == 0 {
        6083089000
    } else if i == 1 {
        7080065000
    } else if i == 2 {
        4075073000
    } else if i == 3 {
        6083079000
    } else if i == 4 {
        3068079000
    } else if i == 5 {
        11080065089
    } else if i == 6 {
        11083079070
    } else if i == 7 {
        11083079076
    } else {
        16083079067
    }
}

proof fn symbol_entry_codes(info: SymbolInfoView, params: SexpView, i: int)
    requires
        0 <= i < 9,
    ensures
        key_code(symbol_entries(info, params)[i].0) == symbol_key_code(i),
        is_plain_key(symbol_entries(info, params)[i].0),
        symbol_entries(info, params).len() == 9,
{
    reveal_keys();
    keys_differ();
    if i == 0 {
    } else if i == 1 {
    } else if i == 2 {
    } else if i == 3 {
    } else if i == 4 {
    } else if i == 5 {
    } else if i == 6 {
    } else if i == 7 {
    } else {
        assert(i == 8);
    }
}

proof fn symbol_entries_are_plain(
    entries: Seq<(Seq<char>, SexpView)>,
    at: int,
    info: SymbolInfoView,
    params: SexpView,
)
    requires
        has_symbol_entries(entries, at, info, params),
        at == 0 || (at == 1 && entries[0].0 == "ID"@),
    ensures
        plain_entries(entries),
        forall|i: int|
            at <= i < entries.len() ==> key_code(#[trigger] entries[i].0) == symbol_key_code(
                i - at,
            ),
{
    reveal_keys();
    keys_differ();
    let e = symbol_entries(info, params);
    assert forall|i: int| at <= i < entries.len() implies key_code(#[trigger] entries[i].0)
        == symbol_key_code(i - at) && is_plain_key(entries[i].0) by {
        assert(entries.skip(at)[i - at] == entries[i]);
        symbol_entry_codes(info, params, i - at);
    }
    assert forall|i: int, j: int| 0 <= i < j < entries.len() implies #[trigger] entries[i].0
        != #[trigger] entries[j].0 by {
        assert(key_code(entries[j].0) == symbol_key_code(j - at));
        if i >= at {
            assert(key_code(entries[i].0) == symbol_key_code(i - at));
        }
    }
}

proof fn symbol_fields_are_read(
    v: SexpView,
    entries: Seq<(Seq<char>, SexpView)>,
    at: int,
    info: SymbolInfoView,
    params: SexpView,
)
    requires
        has_symbol_entries(entries, at, info, params),
        at == 0 || (at == 1 && entries[0].0 == "ID"@),
        writes_parameters(params, info.param_types),
        well_described(info),
        holds_items(v, plist_items(entries)),
    ensures
        protocol::plist(v) is Some,
        protocol::symbol_info(protocol::plist(v)->0) == info,
        plain_entries(entries),
        forall|i: int|
            at <= i < entries.len() ==> key_code(#[trigger] entries[i].0) == symbol_key_code(
                i - at,
            ),
{
    symbol_entries_are_plain(entries, at, info, params);
    let e = symbol_entries(info, params);
    assert(e.len() == 9);
    assert forall|i: int| 0 <= i < 9 implies #[trigger] entries[at + i] == e[i] by {
        assert(entries.skip(at)[i] == entries[at + i]);
    }
    plist_is_read_back(v, entries);
    let m = protocol::plist(v)->0;
    assert(entries[at].0 == "SYMBOL"@ && entries[at + 1].0 == "PACKAGE"@ && entries[at + 2].0
        == "KIND"@ && entries[at + 3].0 == "SOURCE"@ && entries[at + 4].0 == "DOC"@ && entries[at
        + 5].0 == "PARAM-TYPES"@ && entries[at + 6].0 == "SOURCE-FILE"@ && entries[at + 7].0
        == "SOURCE-LINE"@ && entries[at + 8].0 == "SOURCE-CHARACTER"@);
    text_is_read_back(info.symbol);
    text_is_read_back(info.package);
    text_is_read_back(info.kind);
    optional_is_read_back(info.source);
    optional_is_read_back(info.doc);
    parameters_are_read_back(params, info.param_types);
    optional_is_read_back(info.source_file);
    number_is_read_back(info.source_line);
    number_is_read_back(info.source_character);
}

/// The reply that describes a symbol is read back, with its id, whatever id was expected.
pub proof fn symbol_reply_is_read_back(
    v: SexpView,
    id: Seq<char>,
    info: SymbolInfoView,
    params: SexpView,
    expected: Seq<char>,
)
    requires
        writes_parameters(params, info.param_types),
        well_described(info),
        holds_items(v, plist_items(seq![("ID"@, written(id))] + symbol_entries(info, params))),
    ensures
        protocol::response_of_value(v, expected) == Ok::<ReplResponseView, ResponseErrorView>(
            ReplResponseView { id, data: ResponseDataView::SymbolInfo(info) },
        ),
{
    let entries = seq![("ID"@, written(id))] + symbol_entries(info, params);
    assert(entries.skip(1) =~= symbol_entries(info, params));
    symbol_fields_are_read(v, entries, 1, info, params);
    plist_is_read_back(v, entries);
    keys_differ();
    let m = protocol::plist(v)->0;
    assert(entries[0].0 == "ID"@);
    assert(entries[1].0 == "SYMBOL"@);
    text_is_read_back(id);
    assert forall|k: Seq<char>|
        k == "PONG"@ || k == "OK"@ || k == "ERROR"@ implies !#[trigger] m.dom().contains(k) by {
        if m.dom().contains(k) {
            let i = choose|i: int| 0 <= i < entries.len() && #[trigger] entries[i].0 == k;
            if i > 0 {
                assert(key_code(entries[i].0) == symbol_key_code(i - 1));
            }
        }
    }
}

/// Each of the items describes one of the symbols, in order.
pub open spec fn writes_symbols(items: Seq<SexpView>, symbols: Seq<SymbolInfoView>) -> bool {
    items.len() == symbols.len() && forall|i: int|
        0 <= i < items.len() ==> #[trigger] describes(items[i], symbols[i])
}

/// The value describes a symbol, of which all that is said says something.
pub open spec fn describes(v: SexpView, info: SymbolInfoView) -> bool {
    writes_symbol(v, info) && well_described(info)
}

proof fn symbols_of_items(items: Seq<SexpView>, symbols: Seq<SymbolInfoView>)
    requires
        writes_symbols(items, symbols),
    ensures
        protocol::symbol_infos(items) == symbols,
    decreases symbols.len(),
{
    if symbols.len() > 0 {
        let n = symbols.len() - 1;
        let rest = symbols.drop_last();
        assert forall|i: int| 0 <= i < items.drop_last().len() implies #[trigger] describes(
            items.drop_last()[i],
            rest[i],
        ) by {
            assert(describes(items[i], symbols[i]));
        }
        symbols_of_items(items.drop_last(), rest);
        assert(describes(items[n], symbols[n]));
        symbol_is_read_back(items[n], symbols[n]);
        assert(rest.push(symbols.last()) =~= symbols);
    } else {
        assert(items =~= Seq::<SexpView>::empty());
        assert(protocol::symbol_infos(items) =~= symbols);
    }
}

/// The symbols of a list are read back, all of them and in order.
pub proof fn symbol_list_is_read_back(
    v: SexpView,
    items: Seq<SexpView>,
    symbols: Seq<SymbolInfoView>,
)
    requires
        holds_items(v, items),
        writes_symbols(items, symbols),
    ensures
        protocol::symbol_list(v) == symbols,
{
    items_are_read_back(v, items);
    symbols_of_items(items, symbols);
}

/// The entries of a short reply: its id and one more.
pub open spec fn short_entries(id: Seq<char>, key: Seq<char>, value: SexpView) -> Seq<
    (Seq<char>, SexpView),
> {
    seq![("ID"@, written(id)), (key, value)]
}

proof fn short_reply_is_read(v: SexpView, id: Seq<char>, key: Seq<char>, value: SexpView)
    requires
        holds_items(v, plist_items(short_entries(id, key, value))),
        is_plain_key(key),
        key != "ID"@,
    ensures
        protocol::plist(v) is Some,
        ({
            let m = protocol::plist(v)->0;
            &&& m.dom().contains(key) && m[key] == value
            &&& protocol::text_at(m, "ID"@) == Some(id)
            &&& forall|k: Seq<char>| k != key && k != "ID"@ ==> !#[trigger] m.dom().contains(k)
        }),
{
    reveal_keys();
    let entries = short_entries(id, key, value);
    plist_is_read_back(v, entries);
    let m = protocol::plist(v)->0;
    assert(entries[0].0 == "ID"@ && entries[1].0 == key);
    text_is_read_back(id);
    assert forall|k: Seq<char>| k != key && k != "ID"@ implies !#[trigger] m.dom().contains(k) by {
        if m.dom().contains(k) {
            let i = choose|i: int| 0 <= i < entries.len() && #[trigger] entries[i].0 == k;
            assert(i == 0 || i == 1);
        }
    }
}

/// A list of symbols is read back from a reply.
pub proof fn symbols_reply_is_read_back(
    v: SexpView,
    id: Seq<char>,
    list: SexpView,
    items: Seq<SexpView>,
    symbols: Seq<SymbolInfoView>,
    expected: Seq<char>,
)
    requires
        holds_items(list, items),
        writes_symbols(items, symbols),
        holds_items(v, plist_items(short_entries(id, "SYMBOLS"@, list))),
    ensures
        protocol::response_of_value(v, expected) == Ok::<ReplResponseView, ResponseErrorView>(
            ReplResponseView { id, data: ResponseDataView::SymbolList { symbols } },
        ),
{
    reveal_keys();
    keys_differ();
    short_reply_is_read(v, id, "SYMBOLS"@, list);
    symbol_list_is_read_back(list, items, symbols);
}

/// A pong is read back, under either of its keys and with any value.
pub proof fn pong_is_read_back(v: SexpView, id: Seq<char>, value: SexpView, expected: Seq<char>)
    requires
        holds_items(v, plist_items(short_entries(id, "PONG"@, value))) || holds_items(
            v,
            plist_items(short_entries(id, "OK"@, value)),
        ),
    ensures
        protocol::response_of_value(v, expected) == Ok::<ReplResponseView, ResponseErrorView>(
            ReplResponseView { id, data: ResponseDataView::Pong },
        ),
{
    reveal_keys();
    keys_differ();
    if holds_items(v, plist_items(short_entries(id, "PONG"@, value))) {
        short_reply_is_read(v, id, "PONG"@, value);
    } else {
        short_reply_is_read(v, id, "OK"@, value);
    }
}

/// An error is read back.
pub proof fn error_is_read_back(v: SexpView, id: Seq<char>, error: Seq<char>, expected: Seq<char>)
    requires
        holds_items(v, plist_items(short_entries(id, "ERROR"@, written(error)))),
    ensures
        protocol::response_of_value(v, expected) == Ok::<ReplResponseView, ResponseErrorView>(
            ReplResponseView { id, data: ResponseDataView::Error { error } },
        ),
{
    reveal_keys();
    keys_differ();
    short_reply_is_read(v, id, "ERROR"@, written(error));
    text_is_read_back(error);
}

/// A reply whose only keys are none that is known is refused, with its keys.
pub proof fn unknown_reply_is_refused(
    v: SexpView,
    id: Seq<char>,
    key: Seq<char>,
    value: SexpView,
    expected: Seq<char>,
)
    requires
        holds_items(v, plist_items(short_entries(id, key, value))),
        is_plain_key(key),
        key != "ID"@,
        key != "PONG"@ && key != "OK"@ && key != "ERROR"@ && key != "SYMBOL"@ && key
            != "SYMBOLS"@ && key != "OUTPUT"@ && key != "VALUES"@,
    ensures
        protocol::response_of_value(v, expected) matches Err(
            ResponseErrorView::UnknownFormat(keys),
        ) && keys.contains(key) && keys.contains("ID"@),
{
    reveal_keys();
    keys_differ();
    short_reply_is_read(v, id, key, value);
}


// ---------------------------------------------------------------------------
// Results

/// The map has exactly these keys, each with its value, and no key occurs twice.
pub open spec fn maps_exactly(m: Map<Seq<char>, Seq<char>>, pairs: Seq<(Seq<char>, Seq<char>)>) -> bool {
    &&& forall|i: int, j: int|
        0 <= i < j < pairs.len() ==> #[trigger] pairs[i].0 != #[trigger] pairs[j].0
    &&& forall|i: int|
        0 <= i < pairs.len() ==> m.dom().contains(#[trigger] pairs[i].0) && m[pairs[i].0]
            == pairs[i].1
    &&& forall|k: Seq<char>| #[trigger]
        m.dom().contains(k) ==> exists|i: int| 0 <= i < pairs.len() && #[trigger] pairs[i].0 == k
}

/// Each of the items is the pair of a key and its value.
pub open spec fn writes_pairs(items: Seq<SexpView>, pairs: Seq<(Seq<char>, Seq<char>)>) -> bool {
    items.len() == pairs.len() && forall|i: int|
        0 <= i < items.len() ==> #[trigger] holds_pair(
            items[i],
            written(pairs[i].0),
            written(pairs[i].1),
        )
}

proof fn pairs_of_items(items: Seq<SexpView>, pairs: Seq<(Seq<char>, Seq<char>)>)
    requires
        writes_pairs(items, pairs),
        forall|i: int, j: int|
            0 <= i < j < pairs.len() ==> #[trigger] pairs[i].0 != #[trigger] pairs[j].0,
        forall|i: int| 0 <= i < pairs.len() ==> (#[trigger] pairs[i]).1 != "NIL"@,
    ensures
        maps_exactly(protocol::pairs_texts(items), pairs),
    decreases pairs.len(),
{
    let m = protocol::pairs_texts(items);
    if pairs.len() > 0 {
        let n = pairs.len() - 1;
        let rest = pairs.drop_last();
        let some = items.drop_last();
        assert forall|i: int| 0 <= i < some.len() implies #[trigger] holds_pair(
            some[i],
            written(rest[i].0),
            written(rest[i].1),
        ) by {
            assert(holds_pair(items[i], written(pairs[i].0), written(pairs[i].1)));
        }
        assert forall|i: int, j: int| 0 <= i < j < rest.len() implies #[trigger] rest[i].0
            != #[trigger] rest[j].0 by {
            assert(pairs[i].0 != pairs[j].0);
        }
        assert forall|i: int| 0 <= i < rest.len() implies (#[trigger] rest[i]).1 != "NIL"@ by {
            assert(pairs[i].1 != "NIL"@);
        }
        pairs_of_items(some, rest);
        let m0 = protocol::pairs_texts(some);
        assert(holds_pair(items[n], written(pairs[n].0), written(pairs[n].1)));
        text_is_read_back(pairs[n].0);
        text_is_read_back(pairs[n].1);
        assert(pairs[n].1 != "NIL"@);
        assert(m == m0.insert(pairs[n].0, pairs[n].1));
        assert forall|i: int| 0 <= i < pairs.len() implies m.dom().contains(#[trigger] pairs[i].0)
            && m[pairs[i].0] == pairs[i].1 by {
            if i < n {
                assert(rest[i] == pairs[i]);
                assert(pairs[i].0 != pairs[n].0);
            }
        }
        assert forall|k: Seq<char>| #[trigger] m.dom().contains(k) implies exists|i: int|
            0 <= i < pairs.len() && #[trigger] pairs[i].0 == k by {
            if k == pairs[n].0 {
            } else {
                assert(m0.dom().contains(k));
                let i = choose|i: int| 0 <= i < rest.len() && #[trigger] rest[i].0 == k;
                assert(pairs[i].0 == k);
            }
        }
    } else {
        assert(items =~= Seq::<SexpView>::empty());
    }
}

/// The value says what is to be shown: a property list with the representations under `DATA`.
pub open spec fn writes_display(v: SexpView, d: DisplayDataView) -> bool {
    d.metadata is None && exists|list: SexpView, items: Seq<SexpView>, pairs: Seq<
        (Seq<char>, Seq<char>),
    >|
        #![trigger holds_items(list, items), maps_exactly(d.data, pairs)]
        holds_items(v, plist_items(seq![("DATA"@, list)])) && holds_items(list, items)
            && writes_pairs(items, pairs) && maps_exactly(d.data, pairs) && forall|i: int|
            0 <= i < pairs.len() ==> (#[trigger] pairs[i]).1 != "NIL"@
}

/// What is to be shown is read back: every representation under its media type.
pub proof fn display_is_read_back(v: SexpView, d: DisplayDataView)
    requires
        writes_display(v, d),
    ensures
        protocol::plist(v) is Some,
        protocol::plist(v)->0.dom().contains("DATA"@),
        protocol::alist(protocol::plist(v)->0["DATA"@]) == d.data,
{
    let (list, items, pairs) = choose|list: SexpView, items: Seq<SexpView>, pairs: Seq<
        (Seq<char>, Seq<char>),
    >|
        #![trigger holds_items(list, items), maps_exactly(d.data, pairs)]
        holds_items(v, plist_items(seq![("DATA"@, list)])) && holds_items(list, items)
            && writes_pairs(items, pairs) && maps_exactly(d.data, pairs) && forall|i: int|
            0 <= i < pairs.len() ==> (#[trigger] pairs[i]).1 != "NIL"@;
    let entries = seq![("DATA"@, list)];
    reveal_keys();
    plist_is_read_back(v, entries);
    assert(entries[0].0 == "DATA"@);
    items_are_read_back(list, items);
    pairs_of_items(items, pairs);
    let got = protocol::pairs_texts(items);
    assert forall|k: Seq<char>| #[trigger] got.dom().contains(k) == d.data.dom().contains(k) by {
        if got.dom().contains(k) {
            let i = choose|i: int| 0 <= i < pairs.len() && #[trigger] pairs[i].0 == k;
            assert(d.data.dom().contains(pairs[i].0));
        }
        if d.data.dom().contains(k) {
            let i = choose|i: int| 0 <= i < pairs.len() && #[trigger] pairs[i].0 == k;
            assert(got.dom().contains(pairs[i].0));
        }
    }
    assert forall|k: Seq<char>| got.dom().contains(k) implies #[trigger] got[k] == d.data[k] by {
        let i = choose|i: int| 0 <= i < pairs.len() && #[trigger] pairs[i].0 == k;
        assert(got[pairs[i].0] == pairs[i].1);
        assert(d.data[pairs[i].0] == pairs[i].1);
    }
    assert(got =~= d.data);
}

/// Each of the items says one of the things that are to be shown, in order.
pub open spec fn writes_displays(items: Seq<SexpView>, shown: Seq<DisplayDataView>) -> bool {
    items.len() == shown.len() && forall|i: int|
        0 <= i < items.len() ==> #[trigger] writes_display(items[i], shown[i])
}

proof fn displays_of_items(items: Seq<SexpView>, shown: Seq<DisplayDataView>)
    requires
        writes_displays(items, shown),
    ensures
        protocol::display_items(items) == shown,
    decreases shown.len(),
{
    if shown.len() > 0 {
        let n = shown.len() - 1;
        let rest = shown.drop_last();
        assert forall|i: int| 0 <= i < items.drop_last().len() implies #[trigger] writes_display(
            items.drop_last()[i],
            rest[i],
        ) by {
            assert(writes_display(items[i], shown[i]));
        }
        displays_of_items(items.drop_last(), rest);
        assert(writes_display(items[n], shown[n]));
        display_is_read_back(items[n], shown[n]);
        assert(rest.push(shown.last()) =~= shown);
    } else {
        assert(items =~= Seq::<SexpView>::empty());
        assert(protocol::display_items(items) =~= shown);
    }
}

/// How what is to be shown is written: as a list, or as `NIL` where there is nothing.
pub open spec fn writes_shown(v: SexpView, shown: Option<Seq<DisplayDataView>>) -> bool {
    match shown {
        Some(d) => d.len() > 0 && exists|items: Seq<SexpView>| #[trigger]
            writes_displays(items, d) && holds_items(v, items),
        None => v == nil(),
    }
}

/// The entries of the reply to an evaluation: each part under its own key.
pub open spec fn eval_entries(
    id: Seq<char>,
    output: Seq<char>,
    values: SexpView,
    error: Option<Seq<char>>,
    traceback: Option<Seq<char>>,
    shown: SexpView,
) -> Seq<(Seq<char>, SexpView)> {
    seq![
        ("ID"@, written(id)),
        ("OUTPUT"@, written(output)),
        ("VALUES"@, values),
        ("ERROR"@, written_opt(error)),
        ("TRACEBACK"@, written_opt(traceback)),
        ("DISPLAYS"@, shown),
    ]
}

/// The result of an evaluation is read back: output, values, error, traceback and what is to be
/// shown, each from its own key.
pub proof fn result_is_read_back(
    v: SexpView,
    id: Seq<char>,
    output: Seq<char>,
    list: SexpView,
    values: Seq<Seq<char>>,
    error: Option<Seq<char>>,
    traceback: Option<Seq<char>>,
    shown: SexpView,
    displays: Option<Seq<DisplayDataView>>,
    expected: Seq<char>,
)
    requires
        holds_items(list, values.map_values(|s: Seq<char>| written(s))),
        error is Some ==> error->0.len() > 0,
        traceback is Some ==> traceback->0.len() > 0,
        writes_shown(shown, displays),
        holds_items(v, plist_items(eval_entries(id, output, list, error, traceback, shown))),
    ensures
        protocol::response_of_value(v, expected) == Ok::<ReplResponseView, ResponseErrorView>(
            ReplResponseView {
                id,
                data: ResponseDataView::EvalResult { output, values, error, traceback, displays },
            },
        ),
{
    reveal_keys();
    keys_differ();
    let entries = eval_entries(id, output, list, error, traceback, shown);
    assert(entries.len() == 6);
    assert(entries[0].0 == "ID"@ && entries[1].0 == "OUTPUT"@ && entries[2].0 == "VALUES"@
        && entries[3].0 == "ERROR"@ && entries[4].0 == "TRACEBACK"@ && entries[5].0
        == "DISPLAYS"@);
    assert forall|i: int| 0 <= i < entries.len() implies is_plain_key(#[trigger] entries[i].0)
        && key_code(entries[i].0) != key_code("PONG"@) && key_code(entries[i].0) != key_code(
        "OK"@,
    ) && key_code(entries[i].0) != key_code("SYMBOL"@) && key_code(entries[i].0) != key_code(
        "SYMBOLS"@,
    ) by {
        assert(i == 0 || i == 1 || i == 2 || i == 3 || i == 4 || i == 5);
    }
    assert(plain_entries(entries)) by {
        assert forall|i: int, j: int| 0 <= i < j < entries.len() implies #[trigger] entries[i].0
            != #[trigger] entries[j].0 by {
            assert(i == 0 || i == 1 || i == 2 || i == 3 || i == 4);
            assert(j == 1 || j == 2 || j == 3 || j == 4 || j == 5);
        }
    }
    plist_is_read_back(v, entries);
    let m = protocol::plist(v)->0;
    assert forall|k: Seq<char>|
        k == "PONG"@ || k == "OK"@ || k == "SYMBOL"@ || k == "SYMBOLS"@ implies !#[trigger] m.dom().contains(
    k) by {
        if m.dom().contains(k) {
            let i = choose|i: int| 0 <= i < entries.len() && #[trigger] entries[i].0 == k;
        }
    }
    text_is_read_back(id);
    text_is_read_back(output);
    texts_are_read_back(list, values);
    optional_is_read_back(error);
    optional_is_read_back(traceback);
    match displays {
        Some(d) => {
            let items = choose|items: Seq<SexpView>| #[trigger]
                writes_displays(items, d) && holds_items(shown, items);
            items_are_read_back(shown, items);
            displays_of_items(items, d);
        },
        None => {},
    }
}

// ---------------------------------------------------------------------------
// Which reply it is

/// A reply is a pong exactly if it has the key `PONG` or `OK`, whatever else it has.
pub proof fn pong_has_its_key(m: Map<Seq<char>, SexpView>)
    ensures
        (protocol::response_data(m) == Some(ResponseDataView::Pong)) == (m.dom().contains("PONG"@)
            || m.dom().contains("OK"@)),
{
}

/// A reply is an error exactly if it is no pong, has no output and has an error that says
/// something; and it says what the reply says.
pub proof fn error_has_no_output(m: Map<Seq<char>, SexpView>)
    ensures
        (protocol::response_data(m) matches Some(ResponseDataView::Error { error })) == (
        !m.dom().contains("PONG"@) && !m.dom().contains("OK"@) && !m.dom().contains("OUTPUT"@)
            && m.dom().contains("ERROR"@) && protocol::value_text(m["ERROR"@]) is Some),
        protocol::response_data(m) matches Some(ResponseDataView::Error { error })
            ==> protocol::value_text(m["ERROR"@]) == Some(error),
{
}

/// The id of a reply is the one that it has, or the one that was expected; nothing else of the
/// reply depends on what was expected.
pub proof fn expected_id_is_a_fallback(
    m: Map<Seq<char>, SexpView>,
    expected: Seq<char>,
    other: Seq<char>,
)
    ensures
        match (protocol::response_of(m, expected), protocol::response_of(m, other)) {
            (Ok(a), Ok(b)) => a.data == b.data && (if m.dom().contains("ID"@)
                && protocol::value_text(m["ID"@]) is Some {
                Some(a.id) == protocol::value_text(m["ID"@]) && a.id == b.id
            } else {
                a.id == expected && b.id == other
            }),
            (Err(a), Err(b)) => a == b,
            _ => false,
        },
{
}

/// What is no proper list is no reply.
pub proof fn other_values_are_refused(v: SexpView, expected: Seq<char>)
    requires
        match v {
            SexpView::Null => false,
            SexpView::List(l) => l.dotted is Some,
            _ => true,
        },
    ensures
        protocol::response_of_value(v, expected) == Err::<ReplResponseView, ResponseErrorView>(
            ResponseErrorView::NotAList,
        ),
{
}


// ---------------------------------------------------------------------------
// Other values

/// Whatever says something reads as its text: a symbol as its name, `T` in any case as `T`, a
/// number as its digits, truth as `T`, and a list as it is printed.
pub proof fn other_values_are_read(name: Seq<char>, shown: Seq<char>, list: ListView)
    requires
        !text::same_ignoring_case(name, "nil"@),
        !text::same_ignoring_case(name, "t"@),
    ensures
        protocol::value_text(SexpView::Symbol(name)) == Some(name),
        protocol::value_text(SexpView::Symbol("T"@)) == Some("T"@),
        protocol::value_text(SexpView::Symbol("t"@)) == Some("T"@),
        protocol::value_text(SexpView::Bool(true)) == Some("T"@),
        protocol::value_text(SexpView::Number(shown)) == Some(shown),
        protocol::value_text(SexpView::Opaque(shown)) == Some(shown),
        protocol::value_text(SexpView::List(list)) == Some(list.text),
{
    reveal_strlit("T");
    reveal_strlit("t");
    reveal_strlit("nil");
    let a = "T"@.map_values(|c: char| text::ascii_lower(c));
    let b = "t"@.map_values(|c: char| text::ascii_lower(c));
    let n = "nil"@.map_values(|c: char| text::ascii_lower(c));
    assert(a =~= b);
    assert(a.len() == 1 && n.len() == 3);
}

/// What follows the first item of a list is the value after the dot of a pair, or what the rest of
/// the list prints as, or nothing.
pub proof fn rest_of_list_is_read(list: ListView, second: Seq<char>)
    ensures
        list.others.len() > 0 ==> protocol::rest_text(list) == Some(list.rest),
        list.others.len() == 0 && list.dotted is None ==> protocol::rest_text(list) is None,
        list.others.len() == 0 && list.dotted == Some(Box::new(written(second)))
            ==> protocol::rest_text(list) == Some(second),
{
    text_is_read_back(second);
}

/// The names of keys do not depend on case: a keyword and a symbol after colons are read alike.
pub proof fn keys_ignore_colons_and_case(k: Seq<char>, other: Seq<char>)
    requires
        is_plain_key(k),
        k.len() > 0,
        is_ascii_chars(other),
        text::same_ignoring_case(k, other),
    ensures
        protocol::key_of(SexpView::Keyword(other)) == Some(k),
        protocol::key_of(SexpView::Symbol("::"@ + other)) == Some(k),
        protocol::key_of(SexpView::Symbol(other)) == Some(k),
{
    reveal_strlit("::");
    let x = k.map_values(|c: char| text::ascii_lower(c));
    let y = other.map_values(|c: char| text::ascii_lower(c));
    assert(x.len() == k.len() && y.len() == other.len());
    let up = other.map_values(|c: char| text::ascii_upper(c));
    assert forall|i: int| 0 <= i < k.len() implies #[trigger] up[i] == k[i] by {
        assert(x[i] == y[i]);
        assert('A' <= k[i] <= 'Z' || k[i] == '-');
        assert(text::ascii_lower(k[i]) == text::ascii_lower(other[i]));
    }
    assert(up =~= k);
    assert(other[0] != ':') by {
        assert(x[0] == y[0]);
        assert('A' <= k[0] <= 'Z' || k[0] == '-');
        assert(text::ascii_lower(k[0]) == text::ascii_lower(other[0]));
    }
    let s = "::"@ + other;
    assert(s[0] == ':' && s[1] == ':');
    let t = s.skip(1);
    assert(t[0] == ':');
    assert(t.skip(1) =~= other);
    assert(protocol::without_colons(other) == other);
    assert(protocol::without_colons(t) == other);
    assert(protocol::without_colons(s) == other);
}


// ---------------------------------------------------------------------------
// What is left out

/// A value that is nothing adds no text to a list; any other adds its own, at the end.
pub proof fn texts_are_collected(items: Seq<SexpView>, v: SexpView)
    ensures
        protocol::value_texts(items.push(v)) == (match protocol::value_text(v) {
            Some(s) => protocol::value_texts(items).push(s),
            None => protocol::value_texts(items),
        }),
        protocol::value_texts(items.push(nil())) == protocol::value_texts(items),
{
    nil_reads_as_nothing();
    assert(items.push(v).drop_last() =~= items);
    assert(items.push(nil()).drop_last() =~= items);
}

/// A type that is empty or `NIL` is no type; the parameter stays.
pub proof fn empty_types_are_none(
    items: Seq<SexpView>,
    v: SexpView,
    name: Seq<char>,
    kind: Seq<char>,
)
    requires
        holds_pair(v, written(name), written(kind)),
    ensures
        kind == "NIL"@ || kind.len() == 0 ==> protocol::params(items.push(v)) == protocol::params(
            items,
        ).push((name, None)),
        kind != "NIL"@ && kind.len() > 0 ==> protocol::params(items.push(v)) == protocol::params(
            items,
        ).push((name, Some(kind))),
{
    assert(items.push(v).drop_last() =~= items);
    text_is_read_back(name);
    text_is_read_back(kind);
}

/// What is no pair, or has no name, is no parameter; what is no list says nothing of parameters,
/// and the special `#nil` that there are none.
pub proof fn other_items_are_no_parameters(items: Seq<SexpView>, v: SexpView, s: Seq<char>)
    requires
        !(v is List) || protocol::value_text(*v->List_0.first) is None,
    ensures
        protocol::params(items.push(v)) == protocol::params(items),
        protocol::param_types(SexpView::Text(s)) is None,
        protocol::param_types(SexpView::Symbol(s)) is None,
        protocol::param_types(SexpView::Null) == Some(Seq::<(Seq<char>, Option<Seq<char>>)>::empty()),
        protocol::param_types(SexpView::Nil) == Some(Seq::<(Seq<char>, Option<Seq<char>>)>::empty()),
{
    assert(items.push(v).drop_last() =~= items);
}

/// A representation whose text is `NIL`, or that has none, is left out.
pub proof fn empty_representations_are_left_out(
    items: Seq<SexpView>,
    v: SexpView,
    key: Seq<char>,
)
    requires
        holds_pair(v, written(key), written("NIL"@)) || holds_pair(v, written(key), nil())
            || !(v is List),
    ensures
        protocol::pairs_texts(items.push(v)) == protocol::pairs_texts(items),
{
    assert(items.push(v).drop_last() =~= items);
    text_is_read_back(key);
    text_is_read_back("NIL"@);
    nil_reads_as_nothing();
}

/// What is no property list describes no symbol; what is one describes one more.
pub proof fn symbols_are_collected(items: Seq<SexpView>, v: SexpView)
    ensures
        protocol::plist(v) is None ==> protocol::symbol_infos(items.push(v))
            == protocol::symbol_infos(items),
        protocol::plist(v) is Some ==> protocol::symbol_infos(items.push(v))
            == protocol::symbol_infos(items).push(protocol::symbol_info(protocol::plist(v)->0)),
{
    assert(items.push(v).drop_last() =~= items);
}

/// What has nothing under `DATA` shows nothing; and where nothing is shown, there is no list.
pub proof fn nothing_is_shown_without_data(items: Seq<SexpView>, v: SexpView, list: SexpView)
    ensures
        protocol::plist(v) is None || !protocol::plist(v)->0.dom().contains("DATA"@)
            ==> protocol::display_items(items.push(v)) == protocol::display_items(items),
        protocol::displays(SexpView::Null) is None,
        holds_items(list, items) && protocol::display_items(items).len() == 0
            ==> protocol::displays(list) is None,
{
    assert(items.push(v).drop_last() =~= items);
    if holds_items(list, items) {
        items_are_read_back(list, items);
    }
}

/// An empty error or traceback is none, and what is missing is empty: output and values.
pub proof fn missing_parts_of_results(m: Map<Seq<char>, SexpView>)
    requires
        protocol::response_data(m) matches Some(ResponseDataView::EvalResult { .. }),
    ensures
        protocol::response_data(m) matches Some(
            ResponseDataView::EvalResult { output, values, error, traceback, displays },
        ) && (!m.dom().contains("OUTPUT"@) ==> output.len() == 0) && (!m.dom().contains("VALUES"@)
            ==> values.len() == 0) && (error is Some ==> error->0.len() > 0) && (traceback is Some
            ==> traceback->0.len() > 0) && (!m.dom().contains("ERROR"@) ==> error is None) && (
        !m.dom().contains("TRACEBACK"@) ==> traceback is None) && (!m.dom().contains("DISPLAYS"@)
            ==> displays is None),
        m.dom().contains("OUTPUT"@) || m.dom().contains("VALUES"@),
{
}

/// A reply without an id has the one that was expected.
pub proof fn missing_id_is_the_expected_one(m: Map<Seq<char>, SexpView>, expected: Seq<char>)
    requires
        !m.dom().contains("ID"@) || m["ID"@] == nil(),
    ensures
        protocol::response_of(m, expected) matches Ok(r) ==> r.id == expected,
{
    nil_reads_as_nothing();
}

/// Missing fields of a description are empty, or nothing.
pub proof fn missing_fields_of_symbols(m: Map<Seq<char>, SexpView>)
    ensures
        ({
            let info = protocol::symbol_info(m);
            &&& !m.dom().contains("SYMBOL"@) ==> info.symbol.len() == 0
            &&& !m.dom().contains("PACKAGE"@) ==> info.package.len() == 0
            &&& !m.dom().contains("KIND"@) ==> info.kind.len() == 0
            &&& !m.dom().contains("SOURCE"@) ==> info.source is None
            &&& !m.dom().contains("DOC"@) ==> info.doc is None
            &&& !m.dom().contains("PARAM-TYPES"@) ==> info.param_types is None
            &&& !m.dom().contains("SOURCE-FILE"@) ==> info.source_file is None
            &&& !m.dom().contains("SOURCE-LINE"@) ==> info.source_line is None
            &&& !m.dom().contains("SOURCE-CHARACTER"@) ==> info.source_character is None
        }),
{
}


/// A text is the reply that its s-expression is; where it is none, the reason is told.
pub proof fn texts_are_replies(v: SexpView, reason: Seq<char>, expected: Seq<char>)
    ensures
        protocol::response_of_parsed(Ok(v), expected) == protocol::response_of_value(v, expected),
        protocol::response_of_parsed(Err(reason), expected) == Err::<
            ReplResponseView,
            ResponseErrorView,
        >(ResponseErrorView::Syntax(reason)),
{
}

}
