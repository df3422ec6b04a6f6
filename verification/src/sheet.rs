//! Layout of the wall spritesheet: the distinct canonical sprites, the named
//! parts each is layered from, and the SVG document that places them on a
//! grid.
use crate::sprite::{
    BaseSprite, BaseSpriteCenter, BaseSpriteEast, BaseSpriteSouth, TopSprite, TopSpriteCenter,
    TopSpriteEast, TopSpriteSouth, TopSpriteSouthEast,
};
use vstd::prelude::*;

verus! {

/// The width of one tile of the sheet, in pixels.
pub const TILE_WIDTH: u32 = 200;

/// The height of one tile of the sheet, in pixels.
pub const TILE_HEIGHT: u32 = 400;

/// The number of tiles in a row of the sheet.
pub const SPRITES_PER_ROW: u32 = 16;

/// The namespace of Inkscape's attributes.
pub const INKSCAPE_NS: &'static str = "http://www.inkscape.org/namespaces/inkscape";

// ---------------------------------------------------------------------------
// Distinct canonical sprites
// ---------------------------------------------------------------------------

/// A sprite kind with a canonical form.
pub trait CanonicalSprite: Sized + Copy {
    /// The canonical form of a sprite.
    spec fn canonical(self) -> Self;

    /// Computes the canonical form.
    fn to_canonical(self) -> (r: Self)
        ensures
            r == self.canonical(),
    ;

    /// Whether two sprites are the same.
    fn same(&self, other: &Self) -> (r: bool)
        ensures
            r == (*self == *other),
    ;
}

impl CanonicalSprite for BaseSprite {
    open spec fn canonical(self) -> BaseSprite {
        self.normalized()
    }

    fn to_canonical(self) -> (r: BaseSprite) {
        self.normalize()
    }

    fn same(&self, other: &BaseSprite) -> (r: bool) {
        *self == *other
    }
}

impl CanonicalSprite for TopSprite {
    open spec fn canonical(self) -> TopSprite {
        self.normalized()
    }

    fn to_canonical(self) -> (r: TopSprite) {
        self.normalize()
    }

    fn same(&self, other: &TopSprite) -> (r: bool) {
        *self == *other
    }
}

/// The elements of `s` in order, each kept only at its first occurrence.
pub open spec fn first_occurrences<T>(s: Seq<T>) -> Seq<T>
    decreases s.len(),
{
    if s.len() == 0 {
        Seq::empty()
    } else {
        let r = first_occurrences(s.drop_last());
        if r.contains(s.last()) {
            r
        } else {
            r.push(s.last())
        }
    }
}

/// The canonical forms of `sprites`.
pub open spec fn canonical_forms<T: CanonicalSprite>(sprites: Seq<T>) -> Seq<T> {
    sprites.map_values(|s: T| s.canonical())
}

pub(crate) fn contains_sprite<T: CanonicalSprite>(v: &Vec<T>, x: &T) -> (r: bool)
    ensures
        r == v@.contains(*x),
{
    let mut i: usize = 0;
    while i < v.len()
        invariant
            i <= v@.len(),
            forall|j: int| 0 <= j < i ==> v@[j] != *x,
        decreases v@.len() - i,
    {
        if v[i].same(x) {
            return true;
        }
        i = i + 1;
    }
    false
}

/// Normalizes `sprites`, keeping only the first occurrence of each distinct value.
pub fn normalized_unique<T: CanonicalSprite>(sprites: &[T]) -> (r: Vec<T>)
    ensures
        r@ == first_occurrences(canonical_forms(sprites@)),
{
    let ghost forms = canonical_forms(sprites@);
    let mut r: Vec<T> = Vec::new();
    let mut i: usize = 0;
    while i < sprites.len()
        invariant
            i <= sprites@.len(),
            forms == canonical_forms(sprites@),
            r@ == first_occurrences(forms.take(i as int)),
        decreases sprites@.len() - i,
    {
        let s = sprites[i].to_canonical();
        assert(forms.take(i + 1).drop_last() =~= forms.take(i as int));
        if !contains_sprite(&r, &s) {
            r.push(s);
        }
        i = i + 1;
    }
    assert(forms.take(sprites@.len() as int) =~= forms);
    r
}

/// Keeping first occurrences leaves no element twice and drops no value.
pub proof fn lemma_first_occurrences<T>(s: Seq<T>)
    ensures
        first_occurrences(s).no_duplicates(),
        forall|x: T| #[trigger] first_occurrences(s).contains(x) <==> s.contains(x),
    decreases s.len(),
{
    if s.len() > 0 {
        lemma_first_occurrences(s.drop_last());
        let r = first_occurrences(s.drop_last());
        assert forall|x: T| #[trigger] first_occurrences(s).contains(x) <==> s.contains(x) by {
            if s.contains(x) && !s.drop_last().contains(x) {
                let k = choose|k: int| 0 <= k < s.len() && s[k] == x;
                if k < s.len() - 1 {
                    assert(s.drop_last()[k] == x);
                }
                if !r.contains(x) {
                    assert(r.push(s.last())[r.len() as int] == x);
                }
            }
            if s.drop_last().contains(x) {
                let k = choose|k: int| 0 <= k < s.drop_last().len() && s.drop_last()[k] == x;
                assert(s[k] == x);
            }
            if first_occurrences(s).contains(x) && !r.contains(x) {
                assert(x == s.last());
                assert(s[s.len() - 1] == x);
            }
            if r.contains(x) {
                let k = choose|k: int| 0 <= k < r.len() && r[k] == x;
                if !r.contains(s.last()) {
                    assert(r.push(s.last())[k] == x);
                }
            }
        }
    }
}

// ---------------------------------------------------------------------------
// Part labels
// ---------------------------------------------------------------------------

/// The label of the part drawn for `center`.
pub open spec fn center_label_view(center: BaseSpriteCenter) -> Seq<char> {
    match center {
        BaseSpriteCenter::Blank => "CenterNone"@,
        BaseSpriteCenter::WallCorner => "CenterWallCorner"@,
        BaseSpriteCenter::WallVertical => "CenterWallVertical"@,
        BaseSpriteCenter::WallHorizontal => "CenterWallHorizontal"@,
        BaseSpriteCenter::WallInverseCorner => "CenterWallInverseCorner"@,
        BaseSpriteCenter::WallFull => "CenterWallFull"@,
        BaseSpriteCenter::StairN => "CenterStairN"@,
        BaseSpriteCenter::StairNFull => "CenterStairNFull"@,
        BaseSpriteCenter::StairS => "CenterStairS"@,
        BaseSpriteCenter::StairSFull => "CenterStairSFull"@,
        BaseSpriteCenter::StairE => "CenterStairE"@,
        BaseSpriteCenter::StairEFull => "CenterStairEFull"@,
        BaseSpriteCenter::StairW => "CenterStairW"@,
        BaseSpriteCenter::StairWFull => "CenterStairWFull"@,
    }
}

pub fn center_label(center: BaseSpriteCenter) -> (r: &'static str)
    ensures
        r@ == center_label_view(center),
{
    match center {
        BaseSpriteCenter::Blank => "CenterNone",
        BaseSpriteCenter::WallCorner => "CenterWallCorner",
        BaseSpriteCenter::WallVertical => "CenterWallVertical",
        BaseSpriteCenter::WallHorizontal => "CenterWallHorizontal",
        BaseSpriteCenter::WallInverseCorner => "CenterWallInverseCorner",
        BaseSpriteCenter::WallFull => "CenterWallFull",
        BaseSpriteCenter::StairN => "CenterStairN",
        BaseSpriteCenter::StairNFull => "CenterStairNFull",
        BaseSpriteCenter::StairS => "CenterStairS",
        BaseSpriteCenter::StairSFull => "CenterStairSFull",
        BaseSpriteCenter::StairE => "CenterStairE",
        BaseSpriteCenter::StairEFull => "CenterStairEFull",
        BaseSpriteCenter::StairW => "CenterStairW",
        BaseSpriteCenter::StairWFull => "CenterStairWFull",
    }
}

/// The label of the part drawn for `south`.
pub open spec fn south_label_view(south: BaseSpriteSouth) -> Seq<char> {
    match south {
        BaseSpriteSouth::Blank => "SouthNone"@,
        BaseSpriteSouth::Door => "SouthDoor"@,
    }
}

pub fn south_label(south: BaseSpriteSouth) -> (r: &'static str)
    ensures
        r@ == south_label_view(south),
{
    match south {
        BaseSpriteSouth::Blank => "SouthNone",
        BaseSpriteSouth::Door => "SouthDoor",
    }
}

/// The label of the part drawn for `east`.
pub open spec fn east_label_view(east: BaseSpriteEast) -> Seq<char> {
    match east {
        BaseSpriteEast::Blank => "EastNone"@,
        BaseSpriteEast::Door => "EastDoor"@,
        BaseSpriteEast::StairN => "EastStairN"@,
        BaseSpriteEast::StairS => "EastStairS"@,
    }
}

pub fn east_label(east: BaseSpriteEast) -> (r: &'static str)
    ensures
        r@ == east_label_view(east),
{
    match east {
        BaseSpriteEast::Blank => "EastNone",
        BaseSpriteEast::Door => "EastDoor",
        BaseSpriteEast::StairN => "EastStairN",
        BaseSpriteEast::StairS => "EastStairS",
    }
}

/// The label of the part drawn for `center`.
pub open spec fn center_top_label_view(center: TopSpriteCenter) -> Seq<char> {
    match center {
        TopSpriteCenter::Blank => "CenterNone"@,
        TopSpriteCenter::WallCorner => "CenterWallCorner"@,
        TopSpriteCenter::WallVertical => "CenterWallVertical"@,
        TopSpriteCenter::WallHorizontal => "CenterWallHorizontal"@,
        TopSpriteCenter::WallInverseCorner => "CenterWallInverseCorner"@,
        TopSpriteCenter::WallFull => "CenterWallFull"@,
        TopSpriteCenter::Door => "CenterDoor"@,
        TopSpriteCenter::StairS => "CenterStairS"@,
        TopSpriteCenter::StairSFull => "CenterStairSFull"@,
    }
}

pub fn center_top_label(center: TopSpriteCenter) -> (r: &'static str)
    ensures
        r@ == center_top_label_view(center),
{
    match center {
        TopSpriteCenter::Blank => "CenterNone",
        TopSpriteCenter::WallCorner => "CenterWallCorner",
        TopSpriteCenter::WallVertical => "CenterWallVertical",
        TopSpriteCenter::WallHorizontal => "CenterWallHorizontal",
        TopSpriteCenter::WallInverseCorner => "CenterWallInverseCorner",
        TopSpriteCenter::WallFull => "CenterWallFull",
        TopSpriteCenter::Door => "CenterDoor",
        TopSpriteCenter::StairS => "CenterStairS",
        TopSpriteCenter::StairSFull => "CenterStairSFull",
    }
}

/// The label of the part drawn for `south`.
pub open spec fn south_top_label_view(south: TopSpriteSouth) -> Seq<char> {
    match south {
        TopSpriteSouth::Blank => "SouthNone"@,
        TopSpriteSouth::Door => "SouthDoor"@,
        TopSpriteSouth::WallCorner => "SouthCorner"@,
        TopSpriteSouth::WallHorizontal => "SouthHorizontal"@,
        TopSpriteSouth::StairN => "SouthStairN"@,
        TopSpriteSouth::StairNFull => "SouthStairNFull"@,
        TopSpriteSouth::StairE => "SouthStairE"@,
        TopSpriteSouth::StairEFull => "SouthStairEFull"@,
        TopSpriteSouth::StairW => "SouthStairW"@,
        TopSpriteSouth::StairWFull => "SouthStairWFull"@,
    }
}

pub fn south_top_label(south: TopSpriteSouth) -> (r: &'static str)
    ensures
        r@ == south_top_label_view(south),
{
    match south {
        TopSpriteSouth::Blank => "SouthNone",
        TopSpriteSouth::Door => "SouthDoor",
        TopSpriteSouth::WallCorner => "SouthCorner",
        TopSpriteSouth::WallHorizontal => "SouthHorizontal",
        TopSpriteSouth::StairN => "SouthStairN",
        TopSpriteSouth::StairNFull => "SouthStairNFull",
        TopSpriteSouth::StairE => "SouthStairE",
        TopSpriteSouth::StairEFull => "SouthStairEFull",
        TopSpriteSouth::StairW => "SouthStairW",
        TopSpriteSouth::StairWFull => "SouthStairWFull",
    }
}

/// The label of the part drawn for `south_east`.
pub open spec fn south_east_top_label_view(south_east: TopSpriteSouthEast) -> Seq<char> {
    match south_east {
        TopSpriteSouthEast::Blank => "SouthEastNone"@,
        TopSpriteSouthEast::StairN => "SouthEastStairN"@,
    }
}

pub fn south_east_top_label(south_east: TopSpriteSouthEast) -> (r: &'static str)
    ensures
        r@ == south_east_top_label_view(south_east),
{
    match south_east {
        TopSpriteSouthEast::Blank => "SouthEastNone",
        TopSpriteSouthEast::StairN => "SouthEastStairN",
    }
}

/// The label of the part drawn for `east`.
pub open spec fn east_top_label_view(east: TopSpriteEast) -> Seq<char> {
    match east {
        TopSpriteEast::Blank => "EastNone"@,
        TopSpriteEast::Door => "EastDoor"@,
        TopSpriteEast::StairS => "EastStairS"@,
    }
}

pub fn east_top_label(east: TopSpriteEast) -> (r: &'static str)
    ensures
        r@ == east_top_label_view(east),
{
    match east {
        TopSpriteEast::Blank => "EastNone",
        TopSpriteEast::Door => "EastDoor",
        TopSpriteEast::StairS => "EastStairS",
    }
}

// ---------------------------------------------------------------------------
// Text
// ---------------------------------------------------------------------------

/// Calls `String::push`, which appends one character.
#[verifier::external_body]
pub(crate) fn push_char(s: &mut String, c: char)
    ensures
        final(s)@ == old(s)@.push(c),
{
    s.push(c);
}

/// A character as it must be written inside an XML attribute value.
pub open spec fn escaped_char(c: char) -> Seq<char> {
    if c == '&' {
        "&amp;"@
    } else if c == '"' {
        "&quot;"@
    } else if c == '<' {
        "&lt;"@
    } else if c == '>' {
        "&gt;"@
    } else {
        seq![c]
    }
}

/// A text as it must be written inside an XML attribute value.
pub open spec fn escaped(s: Seq<char>) -> Seq<char>
    decreases s.len(),
{
    if s.len() == 0 {
        Seq::empty()
    } else {
        escaped(s.drop_last()) + escaped_char(s.last())
    }
}

/// Escapes the characters that cannot stand in an XML attribute value.
pub fn escape_xml_attribute(value: &str) -> (r: String)
    ensures
        r@ == escaped(value@),
{
    let n = value.unicode_len();
    let mut r = String::new();
    let mut i: usize = 0;
    while i < n
        invariant
            n == value@.len(),
            i <= n,
            r@ == escaped(value@.take(i as int)),
        decreases n - i,
    {
        let c = value.get_char(i);
        assert(value@.take(i + 1).drop_last() =~= value@.take(i as int));
        if c == '&' {
            r.append("&amp;");
        } else if c == '"' {
            r.append("&quot;");
        } else if c == '<' {
            r.append("&lt;");
        } else if c == '>' {
            r.append("&gt;");
        } else {
            push_char(&mut r, c);
        }
        i = i + 1;
    }
    assert(value@.take(n as int) =~= value@);
    r
}

/// The decimal digit of value `d`.
pub open spec fn digit_char(d: nat) -> char {
    if d == 0 {
        '0'
    } else if d == 1 {
        '1'
    } else if d == 2 {
        '2'
    } else if d == 3 {
        '3'
    } else if d == 4 {
        '4'
    } else if d == 5 {
        '5'
    } else if d == 6 {
        '6'
    } else if d == 7 {
        '7'
    } else if d == 8 {
        '8'
    } else {
        '9'
    }
}

/// The decimal representation of `n`, without leading zeros.
pub open spec fn decimal(n: nat) -> Seq<char>
    decreases n,
{
    if n < 10 {
        seq![digit_char(n)]
    } else {
        decimal(n / 10).push(digit_char(n % 10))
    }
}

fn digit(d: u64) -> (c: char)
    requires
        d < 10,
    ensures
        c == digit_char(d as nat),
{
    if d == 0 {
        '0'
    } else if d == 1 {
        '1'
    } else if d == 2 {
        '2'
    } else if d == 3 {
        '3'
    } else if d == 4 {
        '4'
    } else if d == 5 {
        '5'
    } else if d == 6 {
        '6'
    } else if d == 7 {
        '7'
    } else if d == 8 {
        '8'
    } else {
        '9'
    }
}

/// Appends the decimal representation of `n`.
pub(crate) fn push_decimal(s: &mut String, n: u64)
    ensures
        final(s)@ == old(s)@ + decimal(n as nat),
    decreases n,
{
    if n >= 10 {
        push_decimal(s, n / 10);
    }
    push_char(s, digit(n % 10));
    assert(decimal(n as nat) == if n < 10 {
        seq![digit_char(n as nat)]
    } else {
        decimal((n / 10) as nat).push(digit_char((n % 10) as nat))
    });
}

// ---------------------------------------------------------------------------
// Parts
// ---------------------------------------------------------------------------

/// The SVG source of the named parts a sprite is layered from, by label.
pub struct PartMap {
    entries: Vec<(String, String)>,
}

impl PartMap {
    /// No label appears twice.
    pub closed spec fn wf(self) -> bool {
        forall|i: int, j: int|
            0 <= i < j < self.entries@.len() ==> #[trigger] self.entries@[i].0@
                != #[trigger] self.entries@[j].0@
    }

    /// The parts by label.
    pub closed spec fn view(self) -> Map<Seq<char>, Seq<char>> {
        Map::new(
            |label: Seq<char>| exists|i: int| 0 <= i < self.entries@.len() && self.entries@[i].0@ == label,
            |label: Seq<char>| {
                let i = choose|i: int| 0 <= i < self.entries@.len() && self.entries@[i].0@ == label;
                self.entries@[i].1@
            },
        )
    }

    pub fn new() -> (r: PartMap)
        ensures
            r.wf(),
            r@ == Map::<Seq<char>, Seq<char>>::empty(),
    {
        let r = PartMap { entries: Vec::new() };
        assert(r@ =~= Map::<Seq<char>, Seq<char>>::empty());
        r
    }

    fn find(&self, label: &String) -> (r: Option<usize>)
        ensures
            match r {
                Some(i) => i < self.entries@.len() && self.entries@[i as int].0@ == label@,
                None => forall|i: int| 0 <= i < self.entries@.len() ==> self.entries@[i].0@ != label@,
            },
    {
        let mut i: usize = 0;
        while i < self.entries.len()
            invariant
                i <= self.entries@.len(),
                forall|j: int| 0 <= j < i ==> self.entries@[j].0@ != label@,
            decreases self.entries@.len() - i,
        {
            if self.entries[i].0 == *label {
                return Some(i);
            }
            i = i + 1;
        }
        None
    }

    /// Sets the part of `label`, replacing any earlier one.
    pub fn insert(&mut self, label: String, part: String)
        requires
            old(self).wf(),
        ensures
            final(self).wf(),
            final(self)@ == old(self)@.insert(label@, part@),
    {
        let ghost old_entries = self.entries@;
        match self.find(&label) {
            Some(i) => {
                let ghost l = label@;
                self.entries.set(i, (label, part));
                assert(self@ =~= old(self)@.insert(l, part@)) by {
                    assert forall|k: Seq<char>| #[trigger] self@.dom().contains(k) <==> old(self)@.insert(l, part@).dom().contains(k) by {
                        if k != l && old(self)@.dom().contains(k) {
                            let j = choose|j: int| 0 <= j < old_entries.len() && old_entries[j].0@ == k;
                            assert(self.entries@[j].0@ == k);
                        }
                        if k == l {
                            assert(self.entries@[i as int].0@ == k);
                        }
                    }
                    assert forall|k: Seq<char>| #[trigger] self@.dom().contains(k) implies self@[k] == old(self)@.insert(l, part@)[k] by {
                        let j = choose|j: int| 0 <= j < self.entries@.len() && self.entries@[j].0@ == k;
                        if k != l {
                            assert(old_entries[j].0@ == k);
                        }
                    }
                }
            },
            None => {
                let ghost l = label@;
                self.entries.push((label, part));
                assert(self@ =~= old(self)@.insert(l, part@)) by {
                    let n = old_entries.len() as int;
                    assert(self.entries@[n].0@ == l);
                    assert forall|k: Seq<char>| #[trigger] self@.dom().contains(k) <==> old(self)@.insert(l, part@).dom().contains(k) by {
                        if k != l && old(self)@.dom().contains(k) {
                            let j = choose|j: int| 0 <= j < old_entries.len() && old_entries[j].0@ == k;
                            assert(self.entries@[j].0@ == k);
                        }
                    }
                    assert forall|k: Seq<char>| #[trigger] self@.dom().contains(k) implies self@[k] == old(self)@.insert(l, part@)[k] by {
                        let j = choose|j: int| 0 <= j < self.entries@.len() && self.entries@[j].0@ == k;
                        if k != l {
                            assert(j < n);
                            assert(old_entries[j].0@ == k);
                        }
                    }
                }
            },
        }
    }

    /// The part of `label`, if there is one.
    pub fn get(&self, label: &str) -> (r: Option<&String>)
        requires
            self.wf(),
        ensures
            match r {
                Some(p) => self@.dom().contains(label@) && p@ == self@[label@],
                None => !self@.dom().contains(label@),
            },
    {
        let label = String::from_str(label);
        match self.find(&label) {
            Some(i) => {
                assert(self.entries@[i as int].0@ == label@);
                Some(&self.entries[i].1)
            },
            None => None,
        }
    }
}

/// Whether every one of `labels` has a part in `parts`.
pub fn has_parts(labels: &[&str], parts: &PartMap) -> (r: bool)
    requires
        parts.wf(),
    ensures
        r == forall|i: int| 0 <= i < labels@.len() ==> parts@.dom().contains(#[trigger] labels@[i]@),
{
    let mut i: usize = 0;
    while i < labels.len()
        invariant
            parts.wf(),
            i <= labels@.len(),
            forall|j: int| 0 <= j < i ==> parts@.dom().contains(#[trigger] labels@[j]@),
        decreases labels@.len() - i,
    {
        if parts.get(labels[i]).is_none() {
            return false;
        }
        i = i + 1;
    }
    true
}

/// Looks up each of `labels` in `parts`, cloning the matching SVG
/// fragments; every label must have a part (see [`has_parts`]).
pub fn resolve_layers(labels: &[&str], parts: &PartMap) -> (r: Vec<String>)
    requires
        parts.wf(),
        forall|i: int| 0 <= i < labels@.len() ==> parts@.dom().contains(#[trigger] labels@[i]@),
    ensures
        r@.len() == labels@.len(),
        forall|i: int| 0 <= i < labels@.len() ==> #[trigger] r@[i]@ == parts@[labels@[i]@],
{
    let mut layers: Vec<String> = Vec::new();
    let mut i: usize = 0;
    while i < labels.len()
        invariant
            parts.wf(),
            forall|j: int| 0 <= j < labels@.len() ==> parts@.dom().contains(#[trigger] labels@[j]@),
            i <= labels@.len(),
            layers@.len() == i,
            forall|j: int| 0 <= j < i ==> #[trigger] layers@[j]@ == parts@[labels@[j]@],
        decreases labels@.len() - i,
    {
        assert(parts@.dom().contains(labels@[i as int]@));
        match parts.get(labels[i]) {
            Some(part) => {
                layers.push(part.clone());
            },
            None => {},
        }
        i = i + 1;
    }
    layers
}

// ---------------------------------------------------------------------------
// The sheet document
// ---------------------------------------------------------------------------

/// The SVG fragments of `layers`, each followed by a line break.
pub open spec fn layers_text(layers: Seq<String>) -> Seq<char>
    decreases layers.len(),
{
    if layers.len() == 0 {
        Seq::empty()
    } else {
        layers_text(layers.drop_last()) + layers.last()@ + seq!['\n']
    }
}

/// The group of the tile named `name` at grid position `index`.
pub open spec fn group_text(name: Seq<char>, layers: Seq<String>, index: nat) -> Seq<char> {
    let x = (index % 16) * 200;
    let y = (index / 16) * 400;
    "  <g inkscape:label=\""@ + escaped(name) + "\" transform=\"translate("@ + decimal(x)
        + ","@ + decimal(y) + ")\">\n"@ + layers_text(layers) + "  </g>\n"@
}

/// The groups of the tiles from `lo` on, in reverse order: the last tile
/// comes first in the document.
pub open spec fn groups_text(tiles: Seq<(String, Vec<String>)>, lo: nat) -> Seq<char>
    decreases tiles.len() - lo,
{
    if lo >= tiles.len() {
        Seq::empty()
    } else {
        groups_text(tiles, lo + 1) + group_text(tiles[lo as int].0@, tiles[lo as int].1@, lo)
    }
}

/// The number of rows of a sheet of `n` tiles.
pub open spec fn sheet_rows(n: nat) -> nat {
    ((n + 15) / 16) as nat
}

/// The opening of the SVG document of a sheet of the given size.
pub open spec fn svg_header(width: nat, height: nat) -> Seq<char> {
    "<?xml version=\"1.0\" encoding=\"UTF-8\" standalone=\"no\"?>\n<svg width=\""@ + decimal(width)
        + "\" height=\""@ + decimal(height) + "\" viewBox=\"0 0 "@ + decimal(width) + " "@
        + decimal(height) + "\" xmlns=\"http://www.w3.org/2000/svg\" xmlns:inkscape=\""@
        + INKSCAPE_NS@
        + "\" xmlns:sodipodi=\"http://sodipodi.sourceforge.net/DTD/sodipodi-0.dtd\">\n"@
}

/// The SVG document of a sheet: 16 tiles of 200 by 400 pixels per row, each
/// tile a group translated to its grid position.
pub open spec fn svg_text(tiles: Seq<(String, Vec<String>)>) -> Seq<char> {
    svg_header(3200, sheet_rows(tiles.len()) * 400) + groups_text(tiles, 0) + "</svg>\n"@
}

fn push_layers(s: &mut String, layers: &Vec<String>)
    ensures
        final(s)@ == old(s)@ + layers_text(layers@),
{
    let mut j: usize = 0;
    while j < layers.len()
        invariant
            j <= layers@.len(),
            s@ == old(s)@ + layers_text(layers@.take(j as int)),
        decreases layers@.len() - j,
    {
        assert(layers@.take(j + 1).drop_last() =~= layers@.take(j as int));
        s.append(layers[j].as_str());
        push_char(s, '\n');
        j = j + 1;
    }
    assert(layers@.take(layers@.len() as int) =~= layers@);
}

fn push_group(s: &mut String, name: &String, layers: &Vec<String>, index: u32)
    requires
        (index / 16) * 400 <= u32::MAX,
    ensures
        final(s)@ == old(s)@ + group_text(name@, layers@, index as nat),
{
    let x = (index % SPRITES_PER_ROW) * TILE_WIDTH;
    let y = (index / SPRITES_PER_ROW) * TILE_HEIGHT;
    let escaped_name = escape_xml_attribute(name.as_str());
    s.append("  <g inkscape:label=\"");
    s.append(escaped_name.as_str());
    s.append("\" transform=\"translate(");
    push_decimal(s, x as u64);
    s.append(",");
    push_decimal(s, y as u64);
    s.append(")\">\n");
    push_layers(s, layers);
    s.append("  </g>\n");
}

/// Lays `tiles` out in a grid, returning the resulting spritesheet SVG source.
pub fn build_svg(tiles: &[(String, Vec<String>)]) -> (r: String)
    requires
        sheet_rows(tiles@.len()) * 400 <= u32::MAX,
    ensures
        r@ == svg_text(tiles@),
{
    let n = tiles.len();
    let columns = SPRITES_PER_ROW;
    let rows = ((n as u32) + 15) / columns;
    let sheet_width = columns * TILE_WIDTH;
    let sheet_height = rows * TILE_HEIGHT;

    let mut r = String::new();
    r.append("<?xml version=\"1.0\" encoding=\"UTF-8\" standalone=\"no\"?>\n<svg width=\"");
    push_decimal(&mut r, sheet_width as u64);
    r.append("\" height=\"");
    push_decimal(&mut r, sheet_height as u64);
    r.append("\" viewBox=\"0 0 ");
    push_decimal(&mut r, sheet_width as u64);
    r.append(" ");
    push_decimal(&mut r, sheet_height as u64);
    r.append("\" xmlns=\"http://www.w3.org/2000/svg\" xmlns:inkscape=\"");
    r.append(INKSCAPE_NS);
    r.append("\" xmlns:sodipodi=\"http://sodipodi.sourceforge.net/DTD/sodipodi-0.dtd\">\n");
    let ghost header = r@;
    assert(header == svg_header(3200, sheet_rows(n as nat) * 400));

    // Reverse the tiles' document order; each keeps the grid position it was given.
    let mut lo: usize = n;
    while lo > 0
        invariant
            n == tiles@.len(),
            n <= u32::MAX,
            sheet_rows(n as nat) * 400 <= u32::MAX,
            lo <= n,
            r@ == header + groups_text(tiles@, lo as nat),
        decreases lo,
    {
        lo = lo - 1;
        assert((lo / 16) * 400 <= u32::MAX) by (nonlinear_arith)
            requires
                lo < n,
                ((n + 15) / 16) * 400 <= u32::MAX,
        ;
        let (name, layers) = &tiles[lo];
        push_group(&mut r, name, layers, lo as u32);
    }
    r.append("</svg>\n");
    r
}

// ---------------------------------------------------------------------------
// The tiles of the sheet
// ---------------------------------------------------------------------------

/// The labels of the parts a base sprite is layered from.
pub open spec fn base_labels(s: BaseSprite) -> Seq<Seq<char>> {
    seq![center_label_view(s.center), south_label_view(s.south), east_label_view(s.east)]
}

/// The labels of the parts a top sprite is layered from.
pub open spec fn top_labels(s: TopSprite) -> Seq<Seq<char>> {
    seq![
        center_top_label_view(s.center),
        south_top_label_view(s.south),
        south_east_top_label_view(s.south_east),
        east_top_label_view(s.east),
    ]
}

/// The base sprites of the sheet: the distinct canonical forms, in order
/// of first occurrence.
pub open spec fn sheet_base_sprites(base: Seq<BaseSprite>) -> Seq<BaseSprite> {
    first_occurrences(canonical_forms(base))
}

/// The top sprites of the sheet: as the base sprites, except that a leading
/// empty top sprite is left out, since the empty base sprite already stands
/// first in the sheet.
pub open spec fn sheet_top_sprites(top: Seq<TopSprite>) -> Seq<TopSprite> {
    let t = first_occurrences(canonical_forms(top));
    if t.len() > 0 && t[0] == TopSprite::blank() {
        t.drop_first()
    } else {
        t
    }
}

/// Whether all `labels` have a part.
pub open spec fn labels_found(labels: Seq<Seq<char>>, parts: Map<Seq<char>, Seq<char>>) -> bool {
    forall|i: int| 0 <= i < labels.len() ==> parts.dom().contains(#[trigger] labels[i])
}

/// Whether `tile` is named `name` and layered from the parts of `labels`.
pub open spec fn tile_is(
    tile: (String, Vec<String>),
    name: Seq<char>,
    labels: Seq<Seq<char>>,
    parts: Map<Seq<char>, Seq<char>>,
) -> bool {
    &&& tile.0@ == name
    &&& tile.1@.len() == labels.len()
    &&& forall|i: int| 0 <= i < labels.len() ==> #[trigger] tile.1@[i]@ == parts[labels[i]]
}

/// The tiles of the sheet, base sprites first and top sprites after them,
/// each named as its sprite and layered from the parts of its labels, and
/// the number of base tiles. `None` where a label has no part.
pub fn spritesheet_tiles(
    base_sprites: &[BaseSprite],
    base_parts: &PartMap,
    top_sprites: &[TopSprite],
    top_parts: &PartMap,
) -> (r: Option<(Vec<(String, Vec<String>)>, usize)>)
    requires
        base_parts.wf(),
        top_parts.wf(),
    ensures
        ({
            let bs = sheet_base_sprites(base_sprites@);
            let ts = sheet_top_sprites(top_sprites@);
            let all_found = (forall|j: int| 0 <= j < bs.len() ==> labels_found(
                #[trigger] base_labels(bs[j]),
                base_parts@,
            )) && (forall|j: int| 0 <= j < ts.len() ==> labels_found(
                #[trigger] top_labels(ts[j]),
                top_parts@,
            ));
            match r {
                Some((tiles, n)) => {
                    &&& all_found
                    &&& n == bs.len()
                    &&& tiles@.len() == bs.len() + ts.len()
                    &&& forall|j: int|
                        0 <= j < bs.len() ==> tile_is(
                            #[trigger] tiles@[j],
                            bs[j].name_view(),
                            base_labels(bs[j]),
                            base_parts@,
                        )
                    &&& forall|j: int|
                        0 <= j < ts.len() ==> tile_is(
                            #[trigger] tiles@[bs.len() + j],
                            ts[j].name_view(),
                            top_labels(ts[j]),
                            top_parts@,
                        )
                },
                None => !all_found,
            }
        }),
{
    let ghost bs = sheet_base_sprites(base_sprites@);
    let ghost ts = sheet_top_sprites(top_sprites@);
    let base_tiles = normalized_unique(base_sprites);
    let mut top_tiles = normalized_unique(top_sprites);
    // The empty top sprite duplicates the empty base sprite already first in the sheet.
    if top_tiles.len() > 0 && top_tiles[0] == TopSprite::EMPTY() {
        top_tiles.remove(0);
    }
    assert(top_tiles@ =~= ts);

    let mut tiles: Vec<(String, Vec<String>)> = Vec::new();
    let mut j: usize = 0;
    while j < base_tiles.len()
        invariant
            base_parts.wf(),
            bs == sheet_base_sprites(base_sprites@),
            base_tiles@ == bs,
            j <= bs.len(),
            tiles@.len() == j,
            forall|k: int| 0 <= k < j ==> labels_found(#[trigger] base_labels(bs[k]), base_parts@),
            forall|k: int|
                0 <= k < j ==> tile_is(
                    #[trigger] tiles@[k],
                    bs[k].name_view(),
                    base_labels(bs[k]),
                    base_parts@,
                ),
        decreases bs.len() - j,
    {
        let sprite = base_tiles[j];
        let labels = [center_label(sprite.center), south_label(sprite.south), east_label(sprite.east)];
        assert(labels@.map_values(|l: &str| l@) =~= base_labels(sprite));
        if has_parts(labels.as_slice(), base_parts) {
            let layers = resolve_layers(labels.as_slice(), base_parts);
            assert(labels_found(base_labels(sprite), base_parts@)) by {
                assert forall|i: int| 0 <= i < 3 implies base_parts@.dom().contains(
                    #[trigger] base_labels(sprite)[i],
                ) by {
                    assert(base_labels(sprite)[i] == labels@[i]@);
                }
            }
            tiles.push((sprite.name(), layers));
            assert(tile_is(tiles@[j as int], bs[j as int].name_view(), base_labels(bs[j as int]), base_parts@)) by {
                assert forall|i: int| 0 <= i < 3 implies #[trigger] tiles@[j as int].1@[i]@
                    == base_parts@[base_labels(sprite)[i]] by {
                    assert(base_labels(sprite)[i] == labels@[i]@);
                }
            }
        } else {
            assert(!labels_found(base_labels(bs[j as int]), base_parts@)) by {
                let i = choose|i: int| 0 <= i < labels@.len() && !base_parts@.dom().contains(
                    #[trigger] labels@[i]@,
                );
                assert(base_labels(sprite)[i] == labels@[i]@);
            }
            assert(!(forall|k: int| 0 <= k < bs.len() ==> labels_found(#[trigger] base_labels(bs[k]), base_parts@)));
            return None;
        }
        j = j + 1;
    }
    let n = base_tiles.len();
    let mut j: usize = 0;
    while j < top_tiles.len()
        invariant
            top_parts.wf(),
            bs == sheet_base_sprites(base_sprites@),
            ts == sheet_top_sprites(top_sprites@),
            top_tiles@ == ts,
            n == bs.len(),
            j <= ts.len(),
            tiles@.len() == n + j,
            forall|k: int| 0 <= k < n ==> labels_found(#[trigger] base_labels(bs[k]), base_parts@),
            forall|k: int|
                0 <= k < n ==> tile_is(
                    #[trigger] tiles@[k],
                    bs[k].name_view(),
                    base_labels(bs[k]),
                    base_parts@,
                ),
            forall|k: int| 0 <= k < j ==> labels_found(#[trigger] top_labels(ts[k]), top_parts@),
            forall|k: int|
                0 <= k < j ==> tile_is(
                    #[trigger] tiles@[n + k],
                    ts[k].name_view(),
                    top_labels(ts[k]),
                    top_parts@,
                ),
        decreases ts.len() - j,
    {
        let sprite = top_tiles[j];
        let labels = [
            center_top_label(sprite.center),
            south_top_label(sprite.south),
            south_east_top_label(sprite.south_east),
            east_top_label(sprite.east),
        ];
        if has_parts(labels.as_slice(), top_parts) {
            let layers = resolve_layers(labels.as_slice(), top_parts);
            assert(labels_found(top_labels(sprite), top_parts@)) by {
                assert forall|i: int| 0 <= i < 4 implies top_parts@.dom().contains(
                    #[trigger] top_labels(sprite)[i],
                ) by {
                    assert(top_labels(sprite)[i] == labels@[i]@);
                }
            }
            tiles.push((sprite.name(), layers));
            assert(tile_is(tiles@[n + j], ts[j as int].name_view(), top_labels(ts[j as int]), top_parts@)) by {
                assert forall|i: int| 0 <= i < 4 implies #[trigger] tiles@[n + j].1@[i]@
                    == top_parts@[top_labels(sprite)[i]] by {
                    assert(top_labels(sprite)[i] == labels@[i]@);
                }
            }
        } else {
            assert(!labels_found(top_labels(ts[j as int]), top_parts@)) by {
                let i = choose|i: int| 0 <= i < labels@.len() && !top_parts@.dom().contains(
                    #[trigger] labels@[i]@,
                );
                assert(top_labels(sprite)[i] == labels@[i]@);
            }
            assert(!(forall|k: int| 0 <= k < ts.len() ==> labels_found(#[trigger] top_labels(ts[k]), top_parts@)));
            return None;
        }
        j = j + 1;
    }
    Some((tiles, n))
}

} // verus!
