//! Sprites and where they stand.

use vstd::prelude::*;
use crate::renderer::yaml::{entry, load_documents, text, yaml_documents, yaml_entry, yaml_text};

verus! {

/// The frame cell on which the top-left cell of a sprite is drawn.
///
/// `x` counts columns from the left edge and `y` counts rows from the top
/// edge. Either may be negative or lie beyond the frame: a sprite may hang
/// over the edge, or be out of sight altogether.
#[derive(Clone, Copy, Debug, PartialEq, Eq, Structural)]
pub struct Location {
    pub x: i32,
    pub y: i32,
}

/// Why a grid of characters is not a sprite.
#[derive(Clone, Copy, Debug, PartialEq, Eq, Structural)]
pub enum MalformedSprite {
    /// The grid has no cells: it has no rows, or its rows hold nothing.
    EmptyGrid,
    /// Some row is longer or shorter than the first one.
    UnevenRows,
    /// The description holds more marks that may open a YAML collection
    /// than the parser is handed.
    TooNested,
    /// The description may hold both a YAML anchor and an alias of it.
    Aliased,
    /// The description is not YAML.
    BadSyntax,
    /// The description holds no YAML document.
    NoDocument,
    /// The description has no entry `data` that is a string.
    NoData,
    /// The description has no entry `null_char` that is a string.
    NoNullChar,
    /// The entry `null_char` of the description is an empty string.
    EmptyNullChar,
}

/// A sprite as a mathematical value: rows of characters, top to bottom,
/// and the character that stands for "nothing drawn here".
pub struct Sprite {
    pub transparent: char,
    pub cells: Seq<Seq<char>>,
}

impl Sprite {
    /// Number of rows.
    pub open spec fn rows(self) -> nat {
        self.cells.len()
    }

    /// Number of columns: the length of the first row.
    pub open spec fn cols(self) -> nat {
        if self.cells.len() == 0 {
            0
        } else {
            self.cells[0].len()
        }
    }

    /// There is at least one cell, and all rows are equally long.
    pub open spec fn rectangular(self) -> bool {
        grid_fault(self.cells) is None
    }

    /// `(row, col)` lies inside the sprite.
    pub open spec fn contains(self, row: int, col: int) -> bool {
        0 <= row < self.rows() && 0 <= col < self.cols()
    }

    /// `(row, col)` lies inside the sprite and holds a character that is drawn.
    pub open spec fn opaque_at(self, row: int, col: int) -> bool {
        self.contains(row, col) && self.cells[row][col] != self.transparent
    }
}

/// The rows of a nested vector as sequences.
pub open spec fn grid(data: Vec<Vec<char>>) -> Seq<Seq<char>> {
    data@.map_values(|row: Vec<char>| row@)
}

/// What is wrong with `cells` as the grid of a sprite, if anything: its
/// rows differ in length, or it has no cells at all.
pub open spec fn grid_fault(cells: Seq<Seq<char>>) -> Option<MalformedSprite> {
    if cells.len() == 0 {
        Some(MalformedSprite::EmptyGrid)
    } else if exists|r: int| 0 <= r < cells.len() && #[trigger] cells[r].len() != cells[0].len() {
        Some(MalformedSprite::UnevenRows)
    } else if cells[0].len() == 0 {
        Some(MalformedSprite::EmptyGrid)
    } else {
        None
    }
}

/// The lines of a text: the pieces between its line feeds. A text without
/// a line feed is one line, and so is the empty text; a text that ends in a
/// line feed has an empty last line.
pub open spec fn lines(text: Seq<char>) -> Seq<Seq<char>>
    decreases text.len(),
{
    if text.len() == 0 {
        seq![Seq::empty()]
    } else {
        let before = lines(text.drop_last());
        if text.last() == '\n' {
            before.push(Seq::empty())
        } else {
            before.drop_last().push(before.last().push(text.last()))
        }
    }
}

/// The text that has the given lines: the lines in a row, with a line feed
/// between each two.
pub open spec fn joined(rows: Seq<Seq<char>>) -> Seq<char>
    decreases rows.len(),
{
    if rows.len() == 0 {
        Seq::empty()
    } else if rows.len() == 1 {
        rows[0]
    } else {
        joined(rows.drop_last()) + seq!['\n'] + rows.last()
    }
}

/// The lines of a text are what lies between its line feeds: there is at
/// least one line, no line holds a line feed, and the lines joined by line
/// feeds give back the text.
pub proof fn lemma_lines_split_at_line_feeds(text: Seq<char>)
    ensures
        lines(text).len() >= 1,
        forall|i: int, j: int|
            0 <= i < lines(text).len() && 0 <= j < lines(text)[i].len() ==> #[trigger] lines(
                text,
            )[i][j] != '\n',
        joined(lines(text)) == text,
    decreases text.len(),
{
    if text.len() == 0 {
        assert(joined(lines(text)) =~= text);
    } else {
        let before = lines(text.drop_last());
        lemma_lines_split_at_line_feeds(text.drop_last());
        assert(text.drop_last().push(text.last()) =~= text);
        if text.last() == '\n' {
            let now = before.push(Seq::empty());
            assert(now.drop_last() =~= before);
            assert(joined(now) =~= joined(before).push('\n'));
        } else {
            let last = before.last().push(text.last());
            let now = before.drop_last().push(last);
            assert(now.drop_last() =~= before.drop_last());
            if before.len() == 1 {
                assert(joined(now) =~= joined(before).push(text.last()));
            } else {
                assert(joined(before) == joined(before.drop_last()) + seq!['\n'] + before.last());
                assert(joined(now) =~= joined(before).push(text.last()));
            }
        }
    }
}

/// The sprite whose rows are the lines of `data` and whose transparent
/// character is the first one of `null_char`, or what is wrong with it.
pub open spec fn sprite_of_text(data: Seq<char>, null_char: Seq<char>) -> Result<
    Sprite,
    MalformedSprite,
> {
    if null_char.len() == 0 {
        Err(MalformedSprite::EmptyNullChar)
    } else {
        match grid_fault(lines(data)) {
            Some(fault) => Err(fault),
            None => Ok(Sprite { transparent: null_char[0], cells: lines(data) }),
        }
    }
}

/// How many marks that may open a collection a description in YAML may
/// hold at most.
pub const MAX_COLLECTION_MARKS: usize = 64;

/// `c` ends a YAML indicator: it is a blank, a line break or the character
/// zero.
pub open spec fn ends_indicator(c: char) -> bool {
    c == ' ' || c == '\t' || c == '\n' || c == '\r' || c == '\0'
}

/// The character at `i` may open a collection in YAML: it is an opening
/// bracket or brace, a colon, or a dash or question mark at the end of the
/// text or before a character that ends an indicator.
pub open spec fn may_open_collection(text: Seq<char>, i: int) -> bool {
    let c = text[i];
    ||| c == '[' || c == '{' || c == ':'
    ||| (c == '-' || c == '?') && (i + 1 == text.len() || ends_indicator(text[i + 1]))
}

/// How many of the first `upto` characters of `text` may open a collection.
pub open spec fn collection_marks(text: Seq<char>, upto: int) -> nat
    decreases upto,
{
    if upto <= 0 {
        0
    } else {
        collection_marks(text, upto - 1) + if may_open_collection(text, upto - 1) {
            1nat
        } else {
            0nat
        }
    }
}

/// Why a text is not handed to the YAML parser, if it is not.
///
/// The parser nests its calls as deep as the collections of the text are
/// nested, and it copies what an anchor names wherever an alias stands, so
/// a short text can make it run out of stack or of memory. A text is
/// handed over only if neither can happen: it holds few characters that
/// may open a collection, and not both `&`, which starts an anchor, and
/// `*`, which starts an alias. The test goes by characters alone, so it
/// also refuses texts that hold such characters inside their strings.
pub open spec fn parser_fault(text: Seq<char>) -> Option<MalformedSprite> {
    if collection_marks(text, text.len() as int) > MAX_COLLECTION_MARKS {
        Some(MalformedSprite::TooNested)
    } else if text.contains('&') && text.contains('*') {
        Some(MalformedSprite::Aliased)
    } else {
        None
    }
}

/// The sprite that a description in YAML stands for, or what is wrong with
/// it. A text that is not handed to the parser is refused first. Otherwise
/// the description is the first document of `source`; its entry `data`
/// holds the rows, one to a line, and its entry `null_char` starts with the
/// transparent character.
pub open spec fn sprite_of_yaml(source: Seq<char>) -> Result<Sprite, MalformedSprite> {
    match parser_fault(source) {
        Some(fault) => Err(fault),
        None => match yaml_documents(source) {
            None => Err(MalformedSprite::BadSyntax),
            Some(docs) => if docs.len() == 0 {
                Err(MalformedSprite::NoDocument)
            } else {
                match yaml_text(yaml_entry(docs[0], "data"@)) {
                    None => Err(MalformedSprite::NoData),
                    Some(data) => match yaml_text(yaml_entry(docs[0], "null_char"@)) {
                        None => Err(MalformedSprite::NoNullChar),
                        Some(null_char) => sprite_of_text(data, null_char),
                    },
                }
            },
        },
    }
}

/// Whether `r` is the sprite, or the fault, that `expected` says.
pub open spec fn yields(r: Result<Representation, MalformedSprite>, expected: Result<
    Sprite,
    MalformedSprite,
>) -> bool {
    match r {
        Ok(rep) => expected == Ok::<Sprite, MalformedSprite>(rep@),
        Err(fault) => expected == Err::<Sprite, MalformedSprite>(fault),
    }
}

/// Whether `c` ends a YAML indicator.
fn is_indicator_end(c: char) -> (yes: bool)
    ensures
        yes == ends_indicator(c),
{
    c == ' ' || c == '\t' || c == '\n' || c == '\r' || c == '\0'
}

/// Finds out why `source` is not handed to the YAML parser, if it is not.
fn check_for_parser(source: &str) -> (fault: Option<MalformedSprite>)
    ensures
        fault == parser_fault(source@),
{
    let mut text: Vec<char> = Vec::new();
    for c in it: source.chars()
        invariant
            it.seq() == source@,
            text@ == source@.take(it.index()),
    {
        text.push(c);
        assert(text@ =~= source@.take(it.index() + 1));
    }
    assert(source@.take(source@.len() as int) =~= source@);
    let mut marks: usize = 0;
    let mut anchor = false;
    let mut alias = false;
    let mut i: usize = 0;
    while i < text.len()
        invariant
            i <= text.len(),
            text@ == source@,
            marks == collection_marks(text@, i as int),
            marks <= i,
            anchor == text@.take(i as int).contains('&'),
            alias == text@.take(i as int).contains('*'),
        decreases text.len() - i,
    {
        let c = text[i];
        proof {
            let seen = text@.take(i as int);
            let more = text@.take(i + 1);
            assert(more =~= seen.push(c));
            assert forall|wanted: char| more.contains(wanted) <==> seen.contains(wanted) || c
                == wanted by {
                if seen.contains(wanted) {
                    let k = choose|k: int| 0 <= k < seen.len() && seen[k] == wanted;
                    assert(more[k] == wanted);
                }
                if c == wanted {
                    assert(more[i as int] == wanted);
                }
            }
        }
        if c == '[' || c == '{' || c == ':' {
            marks = marks + 1;
        } else if c == '-' || c == '?' {
            if i + 1 == text.len() || is_indicator_end(text[i + 1]) {
                marks = marks + 1;
            }
        }
        if c == '&' {
            anchor = true;
        }
        if c == '*' {
            alias = true;
        }
        i = i + 1;
    }
    assert(text@.take(text@.len() as int) =~= text@);
    if marks > MAX_COLLECTION_MARKS {
        Some(MalformedSprite::TooNested)
    } else if anchor && alias {
        Some(MalformedSprite::Aliased)
    } else {
        None
    }
}

/// An immutable sprite: a rectangular grid of characters, one of which is
/// transparent.
#[derive(Debug)]
pub struct Representation {
    null_char: char,
    data: Vec<Vec<char>>,
}

impl View for Representation {
    type V = Sprite;

    closed spec fn view(&self) -> Sprite {
        Sprite { transparent: self.null_char, cells: grid(self.data) }
    }
}

impl Representation {
    /// Every sprite that exists is rectangular.
    #[verifier::type_invariant]
    pub open spec fn well_formed(self) -> bool {
        self@.rectangular()
    }

    /// Makes a sprite of `data`, whose rows run top to bottom, with
    /// `null_char` as its transparent character.
    ///
    /// Fails when the rows of `data` differ in length, and when `data`
    /// holds no character at all.
    pub fn new(null_char: char, data: Vec<Vec<char>>) -> (r: Result<Representation, MalformedSprite>)
        ensures
            match r {
                Ok(rep) => grid_fault(grid(data)) is None && rep@ == (Sprite {
                    transparent: null_char,
                    cells: grid(data),
                }),
                Err(e) => grid_fault(grid(data)) == Some(e),
            },
    {
        if data.len() == 0 {
            return Err(MalformedSprite::EmptyGrid);
        }
        let cols = data[0].len();
        let mut i: usize = 1;
        while i < data.len()
            invariant
                1 <= i <= data.len(),
                cols == data[0].len(),
                forall|r: int| 0 <= r < i ==> (#[trigger] grid(data)[r]).len() == cols,
            decreases data.len() - i,
        {
            if data[i].len() != cols {
                assert(grid(data)[i as int].len() != grid(data)[0].len());
                return Err(MalformedSprite::UnevenRows);
            }
            i = i + 1;
        }
        if cols == 0 {
            assert(grid(data)[0] == data[0]@);
            return Err(MalformedSprite::EmptyGrid);
        }
        assert(grid(data)[0] == data[0]@);
        Ok(Representation { null_char, data })
    }

    /// Makes a sprite of two texts: `data` holds the rows, one to a line,
    /// and `null_char` starts with the transparent character.
    ///
    /// Fails when `null_char` is empty, when the lines of `data` are not
    /// equally long, and when `data` is empty or holds line feeds only.
    pub fn from_text(data: &str, null_char: &str) -> (r: Result<Representation, MalformedSprite>)
        ensures
            yields(r, sprite_of_text(data@, null_char@)),
    {
        let mut rows: Vec<Vec<char>> = Vec::new();
        let mut row: Vec<char> = Vec::new();
        proof {
            assert(data@.take(0) =~= Seq::empty());
            assert(grid(rows).push(row@) =~= seq![Seq::empty()]);
        }
        for c in it: data.chars()
            invariant
                it.seq() == data@,
                grid(rows).push(row@) == lines(data@.take(it.index())),
        {
            proof {
                let seen = data@.take(it.index() + 1);
                assert(seen.drop_last() =~= data@.take(it.index()));
                assert(seen.last() == c);
                assert(grid(rows).push(row@).drop_last() =~= grid(rows));
            }
            if c == '\n' {
                rows.push(row);
                row = Vec::new();
                assert(grid(rows).push(row@) =~= lines(data@.take(it.index() + 1)));
            } else {
                row.push(c);
                assert(grid(rows).push(row@) =~= lines(data@.take(it.index() + 1)));
            }
        }
        rows.push(row);
        proof {
            assert(data@.take(data@.len() as int) =~= data@);
            assert(grid(rows) =~= lines(data@));
        }
        match null_char.chars().next() {
            None => Err(MalformedSprite::EmptyNullChar),
            Some(transparent) => Representation::new(transparent, rows),
        }
    }

    /// Reads a sprite from its description in YAML: the first document of
    /// `source`, with the rows in its entry `data`, one to a line, and the
    /// transparent character at the start of its entry `null_char`.
    ///
    /// A text that could make the parser run out of stack or of memory is
    /// refused before it is parsed: one with more than
    /// [`MAX_COLLECTION_MARKS`] characters that may open a collection, and
    /// one that holds both `&` and `*`.
    pub fn from_yaml(source: &str) -> (r: Result<Representation, MalformedSprite>)
        ensures
            yields(r, sprite_of_yaml(source@)),
    {
        match check_for_parser(source) {
            Some(fault) => {
                return Err(fault);
            },
            None => {},
        }
        match load_documents(source) {
            Err(_) => Err(MalformedSprite::BadSyntax),
            Ok(docs) => {
                if docs.len() == 0 {
                    return Err(MalformedSprite::NoDocument);
                }
                match text(entry(&docs[0], "data")) {
                    None => Err(MalformedSprite::NoData),
                    Some(data) => match text(entry(&docs[0], "null_char")) {
                        None => Err(MalformedSprite::NoNullChar),
                        Some(null_char) => Representation::from_text(data, null_char),
                    },
                }
            },
        }
    }

    /// The transparent character.
    pub fn null_char(&self) -> (c: char)
        ensures
            c == self@.transparent,
    {
        self.null_char
    }

    /// The rows of the sprite, top to bottom.
    pub fn data(&self) -> (d: &Vec<Vec<char>>)
        ensures
            grid(*d) == self@.cells,
            self@.rectangular(),
    {
        proof {
            use_type_invariant(self);
        }
        &self.data
    }

    /// Number of rows.
    pub fn rows(&self) -> (n: usize)
        ensures
            n == self@.rows(),
            n > 0,
    {
        proof {
            use_type_invariant(self);
        }
        self.data.len()
    }

    /// Number of columns.
    pub fn cols(&self) -> (n: usize)
        ensures
            n == self@.cols(),
            n > 0,
    {
        proof {
            use_type_invariant(self);
            assert(grid(self.data)[0] == self.data[0]@);
        }
        self.data[0].len()
    }

    /// The character in row `row` and column `col`, if the sprite has such
    /// a cell.
    pub fn cell(&self, row: usize, col: usize) -> (c: Option<char>)
        ensures
            c == (if self@.contains(row as int, col as int) {
                Some(self@.cells[row as int][col as int])
            } else {
                None
            }),
    {
        proof {
            use_type_invariant(self);
            assert(grid(self.data)[0] == self.data[0]@);
        }
        if row < self.data.len() && col < self.data[0].len() {
            assert(grid(self.data)[row as int] == self.data[row as int]@);
            Some(self.data[row][col])
        } else {
            None
        }
    }
}

} // verus!
