//! Where a symbol is defined: the places in which that is looked up, one after the other.

use crate::config;
use crate::document::{Position, Range};
use crate::hover;
use crate::protocol::{ReplRequest, ResponseData, ResponseDataView};
use crate::text;
use vstd::prelude::*;
use vstd::string::*;

verus! {

// ---------------------------------------------------------------------------
// Places

/// A place in a file.
#[derive(Debug, Clone)]
pub struct Location {
    pub uri: String,
    pub range: Range,
}

/// What a place in a file holds.
pub struct LocationView {
    pub uri: Seq<char>,
    pub range: Range,
}

impl View for Location {
    type V = LocationView;

    open spec fn view(&self) -> LocationView {
        LocationView { uri: self.uri@, range: self.range }
    }
}

/// What an optional place holds.
pub open spec fn location_opt(o: Option<Location>) -> Option<LocationView> {
    match o {
        Some(l) => Some(l@),
        None => None,
    }
}

/// The place of a position: nothing is selected there.
pub open spec fn point(uri: Seq<char>, position: Position) -> LocationView {
    LocationView { uri, range: Range { start: position, end: position } }
}

/// The place of a position.
pub fn location_at(uri: String, position: Position) -> (r: Location)
    ensures
        r@ == point(uri@, position),
{
    Location { uri, range: Range { start: position, end: position } }
}

/// Whether a file belongs to a Lisp system.
pub open spec fn is_system_path(path: Seq<char>) -> bool {
    text::has_part(path, "/sbcl/"@) || text::has_part(path, "\\sbcl\\"@) || text::has_part(
        path,
        "/lib/sbcl"@,
    )
}

/// Whether a file belongs to a Lisp system.
pub fn is_system_lisp_path(path: &str) -> (r: bool)
    ensures
        r == is_system_path(path@),
{
    text::contains(path, "/sbcl/") || text::contains(path, "\\sbcl\\") || text::contains(
        path,
        "/lib/sbcl",
    )
}

/// The position of the first definition from `from` on of this name, in upper or lower case.
pub open spec fn definition_from(
    definitions: Seq<(String, Position)>,
    name: Seq<char>,
    from: int,
) -> Option<Position>
    decreases definitions.len() - from,
{
    if from < 0 || from >= definitions.len() {
        None
    } else if text::same_ignoring_case(definitions[from].0@, name) {
        Some(definitions[from].1)
    } else {
        definition_from(definitions, name, from + 1)
    }
}

/// The position of the first definition of this name, in upper or lower case.
pub fn find_definition(definitions: &Vec<(String, Position)>, name: &str) -> (r: Option<Position>)
    ensures
        r == definition_from(definitions@, name@, 0),
{
    let mut i: usize = 0;
    while i < definitions.len()
        invariant
            i <= definitions@.len(),
            definition_from(definitions@, name@, 0) == definition_from(
                definitions@,
                name@,
                i as int,
            ),
        decreases definitions@.len() - i,
    {
        if text::eq_ignore_ascii_case(definitions[i].0.as_str(), name) {
            return Some(definitions[i].1);
        }
        i = i + 1;
    }
    None
}

/// How the REPL gives a place in a file.
#[derive(Debug, Clone, Copy, PartialEq, Eq, Structural)]
pub enum SourcePlace {
    /// A position.
    At(Position),
    /// A number of bytes from the beginning of the file.
    Offset(u32),
    /// Not at all.
    Unknown,
}

/// The place that a line, counted from one, and an offset give: the line where there is
/// one, or else the offset. Zero counts as none.
pub open spec fn source_place(line: Option<u32>, character: Option<u32>) -> SourcePlace {
    if line is Some && line->0 > 0 {
        SourcePlace::At(Position { line: (line->0 - 1) as u32, character: 0 })
    } else if character is Some && character->0 > 0 {
        SourcePlace::Offset(character->0)
    } else {
        SourcePlace::Unknown
    }
}

/// The place that a line, counted from one, and an offset give.
pub fn create_external_location(line: Option<u32>, character: Option<u32>) -> (r: SourcePlace)
    ensures
        r == source_place(line, character),
{
    if let Some(l) = line {
        if l > 0 {
            return SourcePlace::At(Position { line: l - 1, character: 0 });
        }
    }
    if let Some(c) = character {
        if c > 0 {
            return SourcePlace::Offset(c);
        }
    }
    SourcePlace::Unknown
}

// ---------------------------------------------------------------------------
// Offsets

/// The line and the column, in bytes, after the bytes, from a line and a column on.
pub open spec fn advanced(line: nat, column: nat, bytes: Seq<u8>) -> (nat, nat)
    decreases bytes.len(),
{
    if bytes.len() == 0 {
        (line, column)
    } else if bytes[0] == 10 {
        advanced(line + 1, 0, bytes.skip(1))
    } else {
        advanced(line, column + 1, bytes.skip(1))
    }
}

/// It does not matter in which pieces bytes are counted.
pub proof fn pieces_count_alike(line: nat, column: nat, a: Seq<u8>, b: Seq<u8>)
    ensures
        advanced(line, column, a + b) == advanced(
            advanced(line, column, a).0,
            advanced(line, column, a).1,
            b,
        ),
    decreases a.len(),
{
    if a.len() == 0 {
        assert(a + b =~= b);
    } else {
        assert((a + b).skip(1) =~= a.skip(1) + b);
        if a[0] == 10 {
            pieces_count_alike(line + 1, 0, a.skip(1), b);
        } else {
            pieces_count_alike(line, column + 1, a.skip(1), b);
        }
    }
}

/// Counts the bytes of a file up to an offset, piece by piece.
#[derive(Debug)]
pub struct OffsetCounter {
    offset: u32,
    read: u32,
    line: u32,
    column: u32,
}

/// What a counter has counted.
pub struct CounterView {
    /// The bytes that are left up to the offset.
    pub left: nat,
    /// The line.
    pub line: nat,
    /// The bytes since its beginning.
    pub column: nat,
}

impl View for OffsetCounter {
    type V = CounterView;

    closed spec fn view(&self) -> CounterView {
        CounterView {
            left: (self.offset - self.read) as nat,
            line: self.line as nat,
            column: self.column as nat,
        }
    }
}

impl OffsetCounter {
    #[verifier::type_invariant]
    spec fn counts(self) -> bool {
        self.read <= self.offset && self.line + self.column <= self.read
    }

    /// Begins to count up to an offset.
    pub fn new(offset: u32) -> (r: Self)
        ensures
            r@ == (CounterView { left: offset as nat, line: 0, column: 0 }),
    {
        OffsetCounter { offset, read: 0, line: 0, column: 0 }
    }

    /// Whether the offset is reached.
    pub fn is_done(&self) -> (r: bool)
        ensures
            r == (self@.left == 0),
    {
        proof {
            use_type_invariant(self);
        }
        self.read >= self.offset
    }

    /// Counts the next bytes of the file, as far as they come before the offset.
    pub fn count(&mut self, bytes: &[u8])
        ensures
            ({
                let n = if bytes@.len() < old(self)@.left {
                    bytes@.len() as int
                } else {
                    old(self)@.left as int
                };
                let (line, column) = advanced(
                    old(self)@.line,
                    old(self)@.column,
                    bytes@.take(n),
                );
                final(self)@ == (CounterView { left: (old(self)@.left - n) as nat, line, column })
            }),
    {
        proof {
            use_type_invariant(&*self);
        }
        let offset: u32 = self.offset;
        let ghost first = self@;
        let ghost n = if bytes@.len() < first.left {
            bytes@.len() as int
        } else {
            first.left as int
        };
        let mut read: u32 = self.read;
        let mut line: u32 = self.line;
        let mut column: u32 = self.column;
        let start: u32 = self.read;
        let mut i: usize = 0;
        assert(bytes@.take(n).skip(0) =~= bytes@.take(n));
        while i < bytes.len() && read < offset
            invariant
                first.left == offset - start,
                n == (if bytes@.len() < first.left {
                    bytes@.len() as int
                } else {
                    first.left as int
                }),
                start <= read <= offset,
                read == start + i,
                i <= n <= bytes@.len(),
                line + column <= read,
                advanced(first.line, first.column, bytes@.take(n)) == advanced(
                    line as nat,
                    column as nat,
                    bytes@.take(n).skip(i as int),
                ),
            decreases bytes@.len() - i,
        {
            assert(bytes@.take(n).skip(i as int).skip(1) =~= bytes@.take(n).skip(i + 1));
            if bytes[i] == 10 {
                line = line + 1;
                column = 0;
            } else {
                column = column + 1;
            }
            read = read + 1;
            i = i + 1;
        }
        assert(bytes@.take(n).skip(i as int) =~= Seq::<u8>::empty());
        let mut counted = OffsetCounter { offset, read, line, column };
        std::mem::swap(self, &mut counted);
    }

    /// The position that was reached.
    pub fn position(&self) -> (r: Position)
        ensures
            r.line == self@.line,
            r.character == self@.column,
    {
        Position { line: self.line, character: self.column }
    }
}

// ---------------------------------------------------------------------------
// The search

/// Where the search for a definition stands: what has to be asked next, or what was found.
#[derive(Debug)]
pub enum Goto {
    /// Look the symbol up in this package in the index of the user's symbols.
    UserPackage(String),
    /// Look the symbol up in the index of the user's symbols.
    UserSymbol,
    /// Look the symbol up in the package with this number of those that are tried, in the
    /// index of the system's symbols.
    System { package: String, number: usize },
    /// Find the definitions in the document.
    Local,
    /// Ask the REPL.
    Repl(ReplRequest),
    /// Find the place in the file.
    External { file: String, place: SourcePlace },
    /// Find the definitions in the file.
    SourceFile(String),
    /// What was found.
    Stopped(Option<Location>),
}

/// What the state of the search holds.
pub enum GotoView {
    UserPackage(Seq<char>),
    UserSymbol,
    System { package: Seq<char>, number: nat },
    Local,
    Repl,
    External { file: Seq<char>, place: SourcePlace },
    SourceFile(Seq<char>),
    Stopped(Option<LocationView>),
}

impl View for Goto {
    type V = GotoView;

    open spec fn view(&self) -> GotoView {
        match self {
            Goto::UserPackage(p) => GotoView::UserPackage(p@),
            Goto::UserSymbol => GotoView::UserSymbol,
            Goto::System { package, number } => GotoView::System {
                package: package@,
                number: *number as nat,
            },
            Goto::Local => GotoView::Local,
            Goto::Repl(_) => GotoView::Repl,
            Goto::External { file, place } => GotoView::External { file: file@, place: *place },
            Goto::SourceFile(file) => GotoView::SourceFile(file@),
            Goto::Stopped(l) => GotoView::Stopped(location_opt(*l)),
        }
    }
}

/// What came back.
#[derive(Debug)]
pub enum Finding {
    /// A place, or none.
    Found(Option<Location>),
    /// The definitions in a file, and its address, where it has one.
    Definitions { uri: Option<String>, definitions: Vec<(String, Position)> },
    /// The reply of the REPL, or none.
    Reply(Option<ResponseData>),
}

/// Whether what came back fits what was asked.
pub open spec fn finding_fits(at: GotoView, finding: Finding) -> bool {
    match at {
        GotoView::UserPackage(_) => finding is Found,
        GotoView::UserSymbol => finding is Found,
        GotoView::System { .. } => finding is Found,
        GotoView::Local => finding is Definitions,
        GotoView::Repl => finding is Reply,
        GotoView::External { .. } => finding is Found,
        GotoView::SourceFile(_) => finding is Definitions,
        GotoView::Stopped(_) => false,
    }
}

/// The packages of the system in which a symbol is looked up: the one that was named, or
/// else the usual ones.
pub open spec fn system_packages(package: Option<Seq<char>>) -> Seq<Seq<char>> {
    match package {
        Some(p) => seq![p],
        None => seq!["COMMON-LISP"@, "SB-IMPL"@],
    }
}

/// How the search begins.
pub open spec fn goto_first(package: Option<Seq<char>>) -> GotoView {
    match package {
        Some(p) => GotoView::UserPackage(p),
        None => GotoView::UserSymbol,
    }
}

/// The place of a definition among those of a file.
pub open spec fn defined_in(
    uri: Option<Seq<char>>,
    definitions: Seq<(String, Position)>,
    symbol: Seq<char>,
) -> Option<LocationView> {
    match (definition_from(definitions, symbol, 0), uri) {
        (Some(position), Some(u)) => Some(point(u, position)),
        _ => None,
    }
}

/// Where a search goes on after a file was named, in which no place was found: with the
/// definitions in it, unless it belongs to the system.
pub open spec fn goto_file(file: Seq<char>) -> GotoView {
    if is_system_path(file) {
        GotoView::Stopped(None)
    } else {
        GotoView::SourceFile(file)
    }
}

/// Where a search goes on after the reply of the REPL.
pub open spec fn goto_reply(reply: Option<ResponseDataView>) -> GotoView {
    match reply {
        Some(ResponseDataView::SymbolInfo(info)) => match info.source_file {
            Some(file) => if file.len() == 0 {
                GotoView::Stopped(None)
            } else {
                let place = source_place(info.source_line, info.source_character);
                if place is Unknown {
                    goto_file(file)
                } else {
                    GotoView::External { file, place }
                }
            },
            None => GotoView::Stopped(None),
        },
        _ => GotoView::Stopped(None),
    }
}

/// How the search for a symbol, in a package where one was named, goes on.
pub open spec fn goto_next(
    symbol: Seq<char>,
    package: Option<Seq<char>>,
    at: GotoView,
    finding: Finding,
) -> GotoView {
    match (at, finding) {
        (GotoView::Stopped(_), _) => at,
        (_, Finding::Found(Some(location))) => GotoView::Stopped(Some(location@)),
        (GotoView::UserPackage(_), _) => GotoView::UserSymbol,
        (GotoView::UserSymbol, _) => GotoView::System {
            package: system_packages(package)[0],
            number: 0,
        },
        (GotoView::System { package: p, number }, _) => if number + 1 < system_packages(
            package,
        ).len() {
            GotoView::System {
                package: system_packages(package)[number as int + 1],
                number: (number + 1) as nat,
            }
        } else {
            GotoView::Local
        },
        (GotoView::Local, Finding::Definitions { uri, definitions }) => match defined_in(
            text::text_opt(uri),
            definitions@,
            symbol,
        ) {
            Some(location) => GotoView::Stopped(Some(location)),
            None => GotoView::Repl,
        },
        (GotoView::Repl, Finding::Reply(Some(data))) => goto_reply(Some(data@)),
        (GotoView::Repl, _) => GotoView::Stopped(None),
        (GotoView::External { file, place }, _) => goto_file(file),
        (GotoView::SourceFile(_), Finding::Definitions { uri, definitions }) => GotoView::Stopped(
            defined_in(text::text_opt(uri), definitions@, symbol),
        ),
        _ => at,
    }
}

fn found_in(uri: Option<String>, definitions: &Vec<(String, Position)>, symbol: &str) -> (r: Option<
    Location,
>)
    ensures
        location_opt(r) == defined_in(text::text_opt(uri), definitions@, symbol@),
{
    match find_definition(definitions, symbol) {
        Some(position) => match uri {
            Some(u) => Some(location_at(u, position)),
            None => None,
        },
        None => None,
    }
}

fn after_file(file: String) -> (r: Goto)
    ensures
        r@ == goto_file(file@),
{
    if is_system_lisp_path(file.as_str()) {
        Goto::Stopped(None)
    } else {
        Goto::SourceFile(file)
    }
}

fn after_reply(reply: Option<ResponseData>) -> (r: Goto)
    ensures
        r@ == goto_reply(
            match reply {
                Some(data) => Some(data@),
                None => None,
            },
        ),
{
    match reply {
        Some(ResponseData::SymbolInfo(info)) => match info.source_file {
            Some(file) => {
                if file.as_str().is_empty() {
                    return Goto::Stopped(None);
                }
                match create_external_location(info.source_line, info.source_character) {
                    SourcePlace::Unknown => after_file(file),
                    place => Goto::External { file, place },
                }
            },
            None => Goto::Stopped(None),
        },
        _ => Goto::Stopped(None),
    }
}

/// Begins the search for a symbol, in a package where one was named.
pub fn goto_definition(package: Option<&str>) -> (r: Goto)
    ensures
        r@ == goto_first(config::str_opt(package)),
{
    match package {
        Some(p) => Goto::UserPackage(p.to_string()),
        None => Goto::UserSymbol,
    }
}

fn system_step(package: Option<&str>, number: usize) -> (r: Goto)
    requires
        number < system_packages(config::str_opt(package)).len(),
    ensures
        r@ == (GotoView::System {
            package: system_packages(config::str_opt(package))[number as int],
            number: number as nat,
        }),
{
    let name = match package {
        Some(p) => p.to_string(),
        None => if number == 0 {
            "COMMON-LISP".to_string()
        } else {
            "SB-IMPL".to_string()
        },
    };
    Goto::System { package: name, number }
}

/// Goes on with the search once what was asked is known. A request to the REPL asks about
/// the symbol in its package.
pub fn goto_step(symbol: &str, package: Option<&str>, at: Goto, finding: Finding) -> (r: Goto)
    requires
        finding_fits(at@, finding),
    ensures
        r@ == goto_next(symbol@, config::str_opt(package), at@, finding),
        r matches Goto::Repl(request) ==> (request matches ReplRequest::SymbolInfo {
            id,
            symbol: s,
            package: p,
        } && id@.len() == 0 && s@ == symbol@ && text::text_opt(p) == config::str_opt(
            package,
        )),
{
    match (at, finding) {
        (_, Finding::Found(Some(location))) => Goto::Stopped(Some(location)),
        (Goto::UserPackage(_), _) => Goto::UserSymbol,
        (Goto::UserSymbol, _) => system_step(package, 0),
        (Goto::System { package: _, number }, _) => {
            if number == 0 && package.is_none() {
                system_step(package, 1)
            } else {
                Goto::Local
            }
        },
        (Goto::Local, Finding::Definitions { uri, definitions }) => {
            match found_in(uri, &definitions, symbol) {
                Some(location) => Goto::Stopped(Some(location)),
                None => {
                    let named = match package {
                        Some(p) => Some(p.to_string()),
                        None => None,
                    };
                    Goto::Repl(hover::symbol_request(symbol, named))
                },
            }
        },
        (Goto::Repl(_), Finding::Reply(reply)) => after_reply(reply),
        (Goto::External { file, place: _ }, _) => after_file(file),
        (Goto::SourceFile(_), Finding::Definitions { uri, definitions }) => Goto::Stopped(
            found_in(uri, &definitions, symbol),
        ),
        (at, _) => at,
    }
}

/// How many things may still be asked before the search is over.
pub open spec fn goto_left(at: GotoView) -> nat {
    match at {
        GotoView::UserPackage(_) => 9,
        GotoView::UserSymbol => 8,
        GotoView::System { package, number } => if number == 0 {
            7
        } else {
            6
        },
        GotoView::Local => 5,
        GotoView::Repl => 4,
        GotoView::External { .. } => 3,
        GotoView::SourceFile(_) => 2,
        GotoView::Stopped(_) => 0,
    }
}

/// Every search is over after a few questions.
pub proof fn goto_stops(
    symbol: Seq<char>,
    package: Option<Seq<char>>,
    at: GotoView,
    finding: Finding,
)
    requires
        finding_fits(at, finding),
    ensures
        goto_left(goto_next(symbol, package, at, finding)) < goto_left(at),
{
}


// ---------------------------------------------------------------------------
// What a search finds

/// Wherever a place is asked for, a place that is found ends the search, and is its result.
pub proof fn found_place_ends_search(
    symbol: Seq<char>,
    package: Option<Seq<char>>,
    at: GotoView,
    location: Location,
)
    requires
        at is UserPackage || at is UserSymbol || at is System || at is External,
    ensures
        goto_next(symbol, package, at, Finding::Found(Some(location))) == GotoView::Stopped(
            Some(location@),
        ),
{
}

/// Where nothing is found, the search goes on in order: in the package that was named in the user's
/// index, in all of that index, in the system's index, in the document, and then the REPL is asked.
pub proof fn search_goes_on_in_order(symbol: Seq<char>, package: Seq<char>, uri: Option<String>)
    ensures
        ({
            let none = Finding::Found(None);
            let p = Some(package);
            let empty: Seq<(String, Position)> = Seq::empty();
            &&& goto_first(p) == GotoView::UserPackage(package)
            &&& goto_first(None) == GotoView::UserSymbol
            &&& goto_next(symbol, p, GotoView::UserPackage(package), none) == GotoView::UserSymbol
            &&& goto_next(symbol, p, GotoView::UserSymbol, none) == (GotoView::System {
                package,
                number: 0,
            })
            &&& goto_next(symbol, p, (GotoView::System { package, number: 0 }), none)
                == GotoView::Local
            &&& goto_next(symbol, None, GotoView::UserSymbol, none) == (GotoView::System {
                package: "COMMON-LISP"@,
                number: 0,
            })
            &&& goto_next(
                symbol,
                None,
                (GotoView::System { package: "COMMON-LISP"@, number: 0 }),
                none,
            ) == (GotoView::System { package: "SB-IMPL"@, number: 1 })
            &&& goto_next(
                symbol,
                None,
                (GotoView::System { package: "SB-IMPL"@, number: 1 }),
                none,
            ) == GotoView::Local
        }),
{
}

/// Among the definitions of a file the first one of the symbol counts, its name in upper or lower
/// case.
pub proof fn first_definition_counts(
    definitions: Seq<(String, Position)>,
    name: Seq<char>,
    from: int,
)
    requires
        from >= 0,
    ensures
        match definition_from(definitions, name, from) {
            Some(position) => exists|i: int|
                from <= i < definitions.len() && #[trigger] text::same_ignoring_case(
                    definitions[i].0@,
                    name,
                ) && definitions[i].1 == position && forall|j: int|
                    from <= j < i ==> !text::same_ignoring_case(
                        (#[trigger] definitions[j]).0@,
                        name,
                    ),
            None => forall|j: int|
                from <= j < definitions.len() ==> !text::same_ignoring_case(
                    (#[trigger] definitions[j]).0@,
                    name,
                ),
        },
    decreases definitions.len() - from,
{
    if from < definitions.len() {
        if text::same_ignoring_case(definitions[from].0@, name) {
            assert(definitions[from].1 == definition_from(definitions, name, from)->0);
        } else {
            first_definition_counts(definitions, name, from + 1);
            match definition_from(definitions, name, from + 1) {
                Some(position) => {
                    let i = choose|i: int|
                        from + 1 <= i < definitions.len() && #[trigger] text::same_ignoring_case(
                            definitions[i].0@,
                            name,
                        ) && definitions[i].1 == position && forall|j: int|
                            from + 1 <= j < i ==> !text::same_ignoring_case(
                                (#[trigger] definitions[j]).0@,
                                name,
                            );
                    assert(text::same_ignoring_case(definitions[i].0@, name));
                },
                None => {},
            }
        }
    }
}

/// A definition in the document ends the search at its position in the document; without one the
/// REPL is asked. In a source file it ends the search there, and without one with nothing.
pub proof fn definitions_end_search(
    symbol: Seq<char>,
    package: Option<Seq<char>>,
    uri: String,
    definitions: Vec<(String, Position)>,
    file: Seq<char>,
    i: int,
)
    requires
        0 <= i < definitions@.len(),
        text::same_ignoring_case(definitions@[i].0@, symbol),
        forall|j: int|
            0 <= j < i ==> !text::same_ignoring_case((#[trigger] definitions@[j]).0@, symbol),
    ensures
        ({
            let finding = Finding::Definitions { uri: Some(uri), definitions };
            let place = LocationView {
                uri: uri@,
                range: Range { start: definitions@[i].1, end: definitions@[i].1 },
            };
            &&& goto_next(symbol, package, GotoView::Local, finding) == GotoView::Stopped(
                Some(place),
            )
            &&& goto_next(symbol, package, GotoView::SourceFile(file), finding)
                == GotoView::Stopped(Some(place))
        }),
{
    definition_is_at(definitions@, symbol, 0, i);
}

proof fn definition_is_at(
    definitions: Seq<(String, Position)>,
    name: Seq<char>,
    from: int,
    i: int,
)
    requires
        0 <= from <= i < definitions.len(),
        text::same_ignoring_case(definitions[i].0@, name),
        forall|j: int|
            from <= j < i ==> !text::same_ignoring_case((#[trigger] definitions[j]).0@, name),
    ensures
        definition_from(definitions, name, from) == Some(definitions[i].1),
    decreases i - from,
{
    if from < i {
        assert(!text::same_ignoring_case(definitions[from].0@, name));
        definition_is_at(definitions, name, from + 1, i);
    }
}

/// Where no definition is the symbol's, the document leads on to the REPL, and a source file to
/// nothing.
pub proof fn missing_definition_goes_on(
    symbol: Seq<char>,
    package: Option<Seq<char>>,
    uri: Option<String>,
    definitions: Vec<(String, Position)>,
    file: Seq<char>,
)
    requires
        forall|j: int|
            0 <= j < definitions@.len() ==> !text::same_ignoring_case(
                (#[trigger] definitions@[j]).0@,
                symbol,
            ),
    ensures
        ({
            let finding = Finding::Definitions { uri, definitions };
            &&& goto_next(symbol, package, GotoView::Local, finding) == GotoView::Repl
            &&& goto_next(symbol, package, GotoView::SourceFile(file), finding)
                == GotoView::Stopped(None)
        }),
{
    first_definition_counts(definitions@, symbol, 0);
}

/// The line that the REPL gives counts from one and comes before the offset; where there is
/// neither, the definitions of the file are looked through, unless it is one of the system.
pub proof fn reply_names_the_place(
    symbol: Seq<char>,
    package: Option<Seq<char>>,
    data: ResponseData,
)
    ensures
        ({
            let next = goto_next(symbol, package, GotoView::Repl, Finding::Reply(Some(data)));
            match data@ {
                ResponseDataView::SymbolInfo(info) => match info.source_file {
                    Some(file) => if file.len() == 0 {
                        next == GotoView::Stopped(None)
                    } else {
                        let has_line = info.source_line is Some && info.source_line->0 > 0;
                        let has_offset = info.source_character is Some && info.source_character->0
                            > 0;
                        &&& has_line ==> next is External && next->file == file
                            && next->place is At && next->place->At_0.line + 1
                            == info.source_line->0 && next->place->At_0.character == 0
                        &&& !has_line && has_offset ==> next is External && next->file == file
                            && next->place == SourcePlace::Offset(info.source_character->0)
                        &&& !has_line && !has_offset ==> next == (if text::has_part(file, "/sbcl/"@)
                            || text::has_part(file, "\\sbcl\\"@) || text::has_part(
                            file,
                            "/lib/sbcl"@,
                        ) {
                            GotoView::Stopped(None)
                        } else {
                            GotoView::SourceFile(file)
                        })
                    },
                    None => next == GotoView::Stopped(None),
                },
                _ => next == GotoView::Stopped(None),
            }
        }),
        goto_next(symbol, package, GotoView::Repl, Finding::Reply(None)) == GotoView::Stopped(None),
{
}

/// A place in a file that cannot be found leads to the definitions of the file, unless it is one of
/// the system.
pub proof fn missing_place_leads_to_file(
    symbol: Seq<char>,
    package: Option<Seq<char>>,
    file: Seq<char>,
    place: SourcePlace,
)
    ensures
        goto_next(
            symbol,
            package,
            (GotoView::External { file, place }),
            Finding::Found(None),
        ) == (if text::has_part(file, "/sbcl/"@) || text::has_part(file, "\\sbcl\\"@)
            || text::has_part(file, "/lib/sbcl"@) {
            GotoView::Stopped(None)
        } else {
            GotoView::SourceFile(file)
        }),
{
}

/// The number of line feeds among the bytes.
pub open spec fn feeds(bytes: Seq<u8>) -> nat
    decreases bytes.len(),
{
    if bytes.len() == 0 {
        0
    } else {
        feeds(bytes.drop_last()) + (if bytes.last() == 10 {
            1nat
        } else {
            0
        })
    }
}

/// After some bytes the line is the number of their line feeds, and the column the number of bytes
/// after the last of these.
pub proof fn bytes_are_counted(bytes: Seq<u8>, column: nat)
    requires
        column <= bytes.len(),
        column < bytes.len() ==> bytes[bytes.len() - column - 1] == 10,
        forall|i: int| bytes.len() - column <= i < bytes.len() ==> bytes[i] != 10,
    ensures
        advanced(0, 0, bytes) == (feeds(bytes), column),
    decreases bytes.len(),
{
    if bytes.len() > 0 {
        let before = bytes.drop_last();
        let last = seq![bytes.last()];
        assert(bytes =~= before + last);
        pieces_count_alike(0, 0, before, last);
        assert(last.skip(1) =~= Seq::<u8>::empty());
        if bytes.last() == 10 {
            assert(column == 0);
            let c = trailing(before);
            trailing_fits(before);
            bytes_are_counted(before, c);
        } else {
            assert(column > 0);
            bytes_are_counted(before, (column - 1) as nat);
        }
        reveal_with_fuel(advanced, 2);
    }
}

spec fn trailing(bytes: Seq<u8>) -> nat
    decreases bytes.len(),
{
    if bytes.len() == 0 || bytes.last() == 10 {
        0
    } else {
        trailing(bytes.drop_last()) + 1
    }
}

proof fn trailing_fits(bytes: Seq<u8>)
    ensures
        trailing(bytes) <= bytes.len(),
        trailing(bytes) < bytes.len() ==> bytes[bytes.len() - trailing(bytes) - 1] == 10,
        forall|i: int| bytes.len() - trailing(bytes) <= i < bytes.len() ==> bytes[i] != 10,
    decreases bytes.len(),
{
    if bytes.len() > 0 && bytes.last() != 10 {
        let before = bytes.drop_last();
        trailing_fits(before);
        assert forall|i: int| bytes.len() - trailing(bytes) <= i < bytes.len() implies bytes[i]
            != 10 by {
            if i < bytes.len() - 1 {
                assert(before[i] == bytes[i]);
            }
        }
    }
}

}
