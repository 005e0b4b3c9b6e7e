//! Reading a screen layout from the layout file: a JSON array of
//! component descriptions, splitters holding further descriptions as their
//! children.
use vstd::prelude::*;

use crate::align::Align;
use crate::color::Color;
use crate::components::menus::{PlaylistMenu, Queue, TrackMenu};
use crate::components::simple::{EmptySpace, ErrorBox, PlaceHolder, TagDisplay, TitleDisplay};
use crate::components::style_menu::StyleMenu;
use crate::components::tag_menu::TagMenu;
use crate::components::{ComponentMap, Components};
use crate::menu::{items_view, Menu};
use crate::splitter::{HorizontalSplitter, Panel, Size, Splitters, VectorSplitter, VerticalSplitter};
use crate::track::opt_view;
use crate::text::{chars_of, parse_unsigned, spec_parse_unsigned, str_eq, string_of_range};
use json::JsonValue;

verus! {

/// A JSON value. Numbers keep the parts the JSON reader gives them (sign,
/// mantissa, decimal exponent); numbers, objects and arrays also keep the
/// text the reader prints for them.
#[derive(Debug)]
pub enum Json {
    Null,
    Boolean(bool),
    Number { positive: bool, mantissa: u64, exponent: i16, text: String },
    Str(String),
    Object { entries: Vec<(String, Json)>, text: String },
    Array { items: Vec<Json>, text: String },
}

/// A JSON value as plain values.
pub enum JsonView {
    Null,
    Boolean(bool),
    Number(bool, u64, i16, Seq<char>),
    Str(Seq<char>),
    Object(Seq<(Seq<char>, JsonView)>, Seq<char>),
    Array(Seq<JsonView>, Seq<char>),
}

/// A JSON value as plain values.
pub open spec fn json_view(j: Json) -> JsonView
    decreases j,
{
    match j {
        Json::Null => JsonView::Null,
        Json::Boolean(b) => JsonView::Boolean(b),
        Json::Number { positive, mantissa, exponent, text } => JsonView::Number(positive, mantissa, exponent, text@),
        Json::Str(s) => JsonView::Str(s@),
        Json::Object { entries, text } => JsonView::Object(
            Seq::new(
                entries@.len(),
                |i: int|
                    if 0 <= i < entries@.len() {
                        (entries@[i].0@, json_view(entries@[i].1))
                    } else {
                        (Seq::empty(), JsonView::Null)
                    },
            ),
            text@,
        ),
        Json::Array { items, text } => JsonView::Array(
            Seq::new(items@.len(), |i: int| if 0 <= i < items@.len() { json_view(items@[i]) } else { JsonView::Null }),
            text@,
        ),
    }
}

/// The entries of an object as plain values.
pub open spec fn entries_view(es: Seq<(String, Json)>) -> Seq<(Seq<char>, JsonView)> {
    Seq::new(es.len(), |i: int| (es[i].0@, json_view(es[i].1)))
}

proof fn lemma_object_view(entries: Vec<(String, Json)>, text: String)
    ensures
        json_view(Json::Object { entries, text }) == JsonView::Object(entries_view(entries@), text@),
{
    let v = json_view(Json::Object { entries, text });
    assert(v is Object);
    if let JsonView::Object(es, t) = v {
        assert(es.len() == entries@.len());
        assert forall|i: int| 0 <= i < es.len() implies es[i] == entries_view(entries@)[i] by {}
        assert(es =~= entries_view(entries@));
    }
}

proof fn lemma_array_view(items: Vec<Json>, text: String)
    ensures
        json_view(Json::Array { items, text }) == JsonView::Array(items@.map_values(|x: Json| json_view(x)), text@),
{
    let v = json_view(Json::Array { items, text });
    assert(v is Array);
    if let JsonView::Array(xs, t) = v {
        assert(xs.len() == items@.len());
        assert forall|i: int| 0 <= i < xs.len() implies xs[i] == items@.map_values(|x: Json| json_view(x))[i] by {}
        assert(xs =~= items@.map_values(|x: Json| json_view(x)));
    }
}

/// The value of the first entry named `key`.
pub open spec fn spec_get(es: Seq<(Seq<char>, JsonView)>, key: Seq<char>) -> Option<JsonView>
    decreases es.len(),
{
    if es.len() == 0 {
        None
    } else if es[0].0 == key {
        Some(es[0].1)
    } else {
        spec_get(es.drop_first(), key)
    }
}

/// The value named `key` in the object with entries `es`.
pub fn get<'a>(es: &'a Vec<(String, Json)>, key: &str) -> (r: Option<&'a Json>)
    ensures
        match r {
            Some(j) => spec_get(entries_view(es@), key@) == Some(json_view(*j)),
            None => spec_get(entries_view(es@), key@) is None,
        },
{
    let ghost ev = entries_view(es@);
    let mut i: usize = 0;
    assert(ev.subrange(0, ev.len() as int) =~= ev);
    while i < es.len()
        invariant
            ev == entries_view(es@),
            i <= es@.len(),
            spec_get(ev, key@) == spec_get(ev.subrange(i as int, ev.len() as int), key@),
        decreases es@.len() - i,
    {
        let ghost sub = ev.subrange(i as int, ev.len() as int);
        assert(sub[0] == ev[i as int]);
        if str_eq(es[i].0.as_str(), key) {
            return Some(&es[i].1);
        }
        assert(sub.drop_first() =~= ev.subrange(i + 1, ev.len() as int));
        i = i + 1;
    }
    None
}

/// What the JSON reader prints for a value: a string as it is, `null`,
/// `true` or `false`, and the reader's own text for numbers, objects and
/// arrays.
pub open spec fn spec_display(v: JsonView) -> Seq<char> {
    match v {
        JsonView::Null => "null"@,
        JsonView::Boolean(b) => if b { "true"@ } else { "false"@ },
        JsonView::Number(_, _, _, t) => t,
        JsonView::Str(s) => s,
        JsonView::Object(_, t) => t,
        JsonView::Array(_, t) => t,
    }
}

/// The text the JSON reader prints for `j`.
pub fn display(j: &Json) -> (r: String)
    ensures
        r@ == spec_display(json_view(*j)),
{
    match j {
        Json::Null => "null".to_string(),
        Json::Boolean(b) => if *b { "true".to_string() } else { "false".to_string() },
        Json::Number { positive: _, mantissa: _, exponent: _, text } => text.clone(),
        Json::Str(s) => s.clone(),
        Json::Object { entries, text } => {
            proof {
                lemma_object_view(*entries, *text);
            }
            text.clone()
        },
        Json::Array { items, text } => {
            proof {
                lemma_array_view(*items, *text);
            }
            text.clone()
        },
    }
}

/// The string named `key`, if that value is a string.
pub open spec fn spec_parse_string(es: Seq<(Seq<char>, JsonView)>, key: Seq<char>) -> Option<Seq<char>> {
    match spec_get(es, key) {
        Some(JsonView::Str(s)) => Some(s),
        _ => None,
    }
}

pub fn parse_string<'a>(obj: &'a Vec<(String, Json)>, key: &str) -> (r: Option<&'a str>)
    ensures
        match r {
            Some(s) => spec_parse_string(entries_view(obj@), key@) == Some(s@),
            None => spec_parse_string(entries_view(obj@), key@) is None,
        },
{
    match get(obj, key) {
        Some(Json::Str(s)) => Some(s.as_str()),
        _ => None,
    }
}

/// The printed text of the value named `key`, whatever it is.
pub open spec fn spec_parse_optional_string(es: Seq<(Seq<char>, JsonView)>, key: Seq<char>) -> Option<Seq<char>> {
    match spec_get(es, key) {
        Some(v) => Some(spec_display(v)),
        None => None,
    }
}

pub fn parse_optional_string(obj: &Vec<(String, Json)>, key: &str) -> (r: Option<String>)
    ensures
        crate::track::opt_view(r) == spec_parse_optional_string(entries_view(obj@), key@),
{
    match get(obj, key) {
        Some(j) => Some(display(j)),
        None => None,
    }
}

/// The value named `key`, if it is a boolean.
pub open spec fn spec_parse_bool(es: Seq<(Seq<char>, JsonView)>, key: Seq<char>) -> Option<bool> {
    match spec_get(es, key) {
        Some(JsonView::Boolean(b)) => Some(b),
        _ => None,
    }
}

pub fn parse_bool(obj: &Vec<(String, Json)>, key: &str) -> (r: Option<bool>)
    ensures
        r == spec_parse_bool(entries_view(obj@), key@),
{
    match get(obj, key) {
        Some(Json::Boolean(b)) => Some(*b),
        _ => None,
    }
}

/// The size of a panel, from the string named "size": "N%" is a percentage
/// (N a `u8`), "Remainder" is what is left, "N" is a number of cells (N a
/// `u16`). No "size" means what is left; a value that is not such a string
/// gives `None`.
pub open spec fn spec_parse_size(es: Seq<(Seq<char>, JsonView)>) -> Option<Size> {
    match spec_get(es, "size"@) {
        None => Some(Size::Remainder),
        Some(JsonView::Str(s)) => if s.len() > 0 && s.last() == '%' {
            match spec_parse_unsigned(s.drop_last()) {
                Some(v) => if v <= u8::MAX { Some(Size::Percent(v as u8)) } else { None },
                None => None,
            }
        } else if s == "Remainder"@ {
            Some(Size::Remainder)
        } else {
            match spec_parse_unsigned(s) {
                Some(v) => if v <= u16::MAX { Some(Size::Absolute(v as u16)) } else { None },
                None => None,
            }
        },
        Some(_) => None,
    }
}

pub fn parse_size(obj: &Vec<(String, Json)>) -> (r: Option<Size>)
    ensures
        r == spec_parse_size(entries_view(obj@)),
{
    match get(obj, "size") {
        None => Some(Size::Remainder),
        Some(Json::Str(s)) => {
            let v = chars_of(s.as_str());
            if v.len() > 0 && v[v.len() - 1] == '%' {
                let num = string_of_range(v.as_slice(), 0, v.len() - 1);
                assert(num@ == s@.drop_last());
                match parse_unsigned(num.as_str(), 255) {
                    Some(n) => Some(Size::Percent(n as u8)),
                    None => None,
                }
            } else if str_eq(s.as_str(), "Remainder") {
                Some(Size::Remainder)
            } else {
                match parse_unsigned(s.as_str(), 65535) {
                    Some(n) => Some(Size::Absolute(n as u16)),
                    None => None,
                }
            }
        },
        Some(_) => None,
    }
}

/// A part of an RGB color: the mantissa of the number named `key` (its
/// sign and exponent ignored), at most 5.
pub open spec fn spec_parse_color_rgb_part(es: Seq<(Seq<char>, JsonView)>, key: Seq<char>) -> Option<u8> {
    match spec_get(es, key) {
        Some(JsonView::Number(_, m, _, _)) => Some(if m > 5 { 5u8 } else { m as u8 }),
        _ => None,
    }
}

pub fn parse_color_rgb_part(obj: &Vec<(String, Json)>, key: &str) -> (r: Option<u8>)
    ensures
        r == spec_parse_color_rgb_part(entries_view(obj@), key@),
{
    match get(obj, key) {
        Some(Json::Number { positive: _, mantissa, exponent: _, text: _ }) => Some(
            if *mantissa > 5 {
                5
            } else {
                *mantissa as u8
            },
        ),
        _ => None,
    }
}

/// An RGB color from the parts "r", "g" and "b", if all are there.
pub open spec fn spec_parse_color_rgb(es: Seq<(Seq<char>, JsonView)>) -> Option<Color> {
    match (spec_parse_color_rgb_part(es, "r"@), spec_parse_color_rgb_part(es, "g"@), spec_parse_color_rgb_part(es, "b"@)) {
        (Some(r), Some(g), Some(b)) => Some(Color::RGB(r, g, b)),
        _ => None,
    }
}

pub fn parse_color_rgb(obj: &Vec<(String, Json)>) -> (r: Option<Color>)
    ensures
        r == spec_parse_color_rgb(entries_view(obj@)),
{
    let r = match parse_color_rgb_part(obj, "r") {
        Some(n) => n,
        None => return None,
    };
    let g = match parse_color_rgb_part(obj, "g") {
        Some(n) => n,
        None => return None,
    };
    let b = match parse_color_rgb_part(obj, "b") {
        Some(n) => n,
        None => return None,
    };
    Some(Color::RGB(r, g, b))
}

/// The color named `key`: a capitalised color name, or an object with
/// RGB parts; the terminal's default otherwise.
pub open spec fn spec_parse_color(es: Seq<(Seq<char>, JsonView)>, key: Seq<char>) -> Color {
    match spec_get(es, key) {
        Some(JsonView::Str(s)) => match crate::color::spec_color_of_name(s) {
            Some(c) => c,
            None => Color::Reset,
        },
        Some(JsonView::Object(o, _)) => match spec_parse_color_rgb(o) {
            Some(c) => c,
            None => Color::Reset,
        },
        _ => Color::Reset,
    }
}

pub fn parse_color(obj: &Vec<(String, Json)>, key: &str) -> (r: Color)
    ensures
        r == spec_parse_color(entries_view(obj@), key@),
{
    match get(obj, key) {
        Some(Json::Str(s)) => match Color::from_name(s.as_str()) {
            Some(c) => c,
            None => Color::Reset,
        },
        Some(Json::Object { entries, text }) => {
            proof {
                lemma_object_view(*entries, *text);
            }
            match parse_color_rgb(entries) {
                Some(c) => c,
                None => Color::Reset,
            }
        },
        _ => Color::Reset,
    }
}

/// The alignment named `key`: "Center", "Right" or "Left"; left otherwise.
pub open spec fn spec_parse_alignment(es: Seq<(Seq<char>, JsonView)>, key: Seq<char>) -> Align {
    match spec_get(es, key) {
        Some(JsonView::Str(s)) => if s == "Center"@ {
            Align::Center
        } else if s == "Right"@ {
            Align::Right
        } else {
            Align::Left
        },
        _ => Align::Left,
    }
}

pub fn parse_alignment(obj: &Vec<(String, Json)>, key: &str) -> (r: Align)
    ensures
        r == spec_parse_alignment(entries_view(obj@), key@),
{
    match get(obj, key) {
        Some(Json::Str(s)) => if str_eq(s.as_str(), "Center") {
            Align::Center
        } else if str_eq(s.as_str(), "Right") {
            Align::Right
        } else {
            Align::Left
        },
        _ => Align::Left,
    }
}

/// The largest of `s`, 0 for none.
pub open spec fn seq_max(s: Seq<nat>) -> nat
    decreases s.len(),
{
    if s.len() == 0 {
        0
    } else {
        let m = seq_max(s.drop_last());
        if s.last() > m { s.last() } else { m }
    }
}

proof fn lemma_seq_max(s: Seq<nat>, i: int)
    requires
        0 <= i < s.len(),
    ensures
        s[i] <= seq_max(s),
    decreases s.len(),
{
    if i < s.len() - 1 {
        lemma_seq_max(s.drop_last(), i);
    }
}

/// How deeply objects and arrays nest in `v`.
pub open spec fn jdepth(v: JsonView) -> nat
    decreases v,
{
    match v {
        JsonView::Object(es, _) => 1 + seq_max(entry_depths(es)),
        JsonView::Array(xs, _) => 1 + seq_max(item_depths(xs)),
        _ => 0,
    }
}

/// How deeply objects and arrays nest in each value of an object.
pub open spec fn entry_depths(es: Seq<(Seq<char>, JsonView)>) -> Seq<nat>
    decreases es,
{
    Seq::new(es.len(), |i: int| if 0 <= i < es.len() { jdepth(es[i].1) } else { 0 })
}

/// How deeply objects and arrays nest in each item of an array.
pub open spec fn item_depths(xs: Seq<JsonView>) -> Seq<nat>
    decreases xs,
{
    Seq::new(xs.len(), |i: int| if 0 <= i < xs.len() { jdepth(xs[i]) } else { 0 })
}

/// How deeply objects and arrays nest in the values of an object.
pub open spec fn edepth(es: Seq<(Seq<char>, JsonView)>) -> nat {
    seq_max(entry_depths(es))
}

proof fn lemma_get_elem(es: Seq<(Seq<char>, JsonView)>, key: Seq<char>)
    requires
        spec_get(es, key) is Some,
    ensures
        exists|i: int| 0 <= i < es.len() && es[i].1 == spec_get(es, key)->0,
    decreases es.len(),
{
    if es[0].0 != key {
        lemma_get_elem(es.drop_first(), key);
        let i = choose|i: int| 0 <= i < es.drop_first().len() && es.drop_first()[i].1 == spec_get(es.drop_first(), key)->0;
        assert(es[i + 1].1 == spec_get(es, key)->0);
    } else {
        assert(es[0].1 == spec_get(es, key)->0);
    }
}

/// The objects among `xs`, as their entries, in order.
pub open spec fn spec_objects(xs: Seq<JsonView>) -> Seq<Seq<(Seq<char>, JsonView)>>
    decreases xs.len(),
{
    if xs.len() == 0 {
        Seq::empty()
    } else {
        let rest = spec_objects(xs.drop_last());
        match xs.last() {
            JsonView::Object(es, _) => rest.push(es),
            _ => rest,
        }
    }
}

proof fn lemma_objects_depth(xs: Seq<JsonView>, bound: nat)
    requires
        forall|i: int| 0 <= i < xs.len() ==> jdepth(#[trigger] xs[i]) < bound,
    ensures
        forall|j: int| 0 <= j < spec_objects(xs).len() ==> edepth(#[trigger] spec_objects(xs)[j]) < bound,
    decreases xs.len(),
{
    if xs.len() > 0 {
        lemma_objects_depth(xs.drop_last(), bound);
        let rest = spec_objects(xs.drop_last());
        if let JsonView::Object(es, t) = xs.last() {
            assert(jdepth(xs[xs.len() - 1]) < bound);
            assert forall|j: int| 0 <= j < spec_objects(xs).len() implies edepth(#[trigger] spec_objects(xs)[j]) < bound by {
                if j < rest.len() {
                    assert(spec_objects(xs)[j] == rest[j]);
                }
            }
        }
    }
}

/// The child descriptions of a splitter: the objects in its "children"
/// array.
pub open spec fn child_objects(es: Seq<(Seq<char>, JsonView)>) -> Seq<Seq<(Seq<char>, JsonView)>> {
    match spec_get(es, "children"@) {
        Some(JsonView::Array(xs, _)) => spec_objects(xs),
        _ => Seq::empty(),
    }
}

/// The string named "name", or `dflt`.
pub open spec fn name_or(es: Seq<(Seq<char>, JsonView)>, dflt: Seq<char>) -> Seq<char> {
    match spec_parse_string(es, "name"@) {
        Some(n) => n,
        None => dflt,
    }
}

/// The kinds of component a layout file can describe.
pub open spec fn known_kind(k: Seq<char>) -> bool {
    ||| k == "HorizontalSplitter"@
    ||| k == "VerticalSplitter"@
    ||| k == "EmptySpace"@
    ||| k == "PlaceHolder"@
    ||| k == "TagDisplay"@
    ||| k == "TitleDisplay"@
    ||| k == "Queue"@
    ||| k == "PlaylistMenu"@
    ||| k == "TrackMenu"@
    ||| k == "TagMenu"@
    ||| k == "StyleMenu"@
}

/// The kind of component a description makes: its "component" string if
/// that is a known kind, "ErrorBox" for another value, an empty text when
/// there is no "component" but a string "name" (a reference to a component
/// described elsewhere), and "ErrorBox" when there is neither.
pub open spec fn spec_kind(es: Seq<(Seq<char>, JsonView)>) -> Seq<char> {
    match spec_get(es, "component"@) {
        Some(JsonView::Str(k)) => if known_kind(k) { k } else { "ErrorBox"@ },
        Some(_) => "ErrorBox"@,
        None => if spec_parse_string(es, "name"@) is Some { Seq::empty() } else { "ErrorBox"@ },
    }
}

/// The description makes a component (it is not a mere reference).
pub open spec fn spec_makes(es: Seq<(Seq<char>, JsonView)>) -> bool {
    spec_kind(es) != Seq::<char>::empty()
}

/// The name under which a description's component is kept.
pub open spec fn spec_name(es: Seq<(Seq<char>, JsonView)>) -> Seq<char> {
    let k = spec_kind(es);
    if k == "ErrorBox"@ {
        "Error"@
    } else if k == Seq::<char>::empty() {
        spec_parse_string(es, "name"@)->0
    } else {
        name_or(es, k)
    }
}

/// A menu made from a description, with `dflt` as its default name.
pub open spec fn menu_from(m: Menu, es: Seq<(Seq<char>, JsonView)>, dflt: Seq<char>) -> bool {
    &&& m.name@ == name_or(es, dflt)
    &&& m.color == spec_parse_color(es, "color"@)
    &&& m.focus_color == spec_parse_color(es, "focus_color"@)
    &&& opt_view(m.title) == spec_parse_optional_string(es, "title"@)
    &&& m.title_alignment == spec_parse_alignment(es, "title_alignment"@)
    &&& m.menu_alignment == spec_parse_alignment(es, "menu_alignment"@)
    &&& m.selection == 0
}

/// The size of a child panel: its "size", or what is left when that
/// cannot be read.
pub open spec fn panel_size(es: Seq<(Seq<char>, JsonView)>) -> Size {
    match spec_parse_size(es) {
        Some(s) => s,
        None => Size::Remainder,
    }
}

/// A splitter made from a description: name, borders (default on), first
/// panel focused, and one panel per child description, with its size and
/// the name of its component.
pub open spec fn splitter_from(v: VectorSplitter, es: Seq<(Seq<char>, JsonView)>, dflt: Seq<char>) -> bool {
    let kids = child_objects(es);
    &&& v.spec_name() == name_or(es, dflt)
    &&& v.spec_borders() == match spec_parse_bool(es, "borders"@) {
        Some(b) => b,
        None => true,
    }
    &&& v.spec_sel() == 0
    &&& v.spec_panels().len() == kids.len()
    &&& forall|i: int| 0 <= i < kids.len() ==> (#[trigger] v.spec_panels()[i]).spec_size() == panel_size(kids[i])
        && v.spec_panels()[i].spec_key() == spec_name(kids[i])
}

/// The component `c` is what the description `es` makes.
pub open spec fn built(c: Components, es: Seq<(Seq<char>, JsonView)>) -> bool {
    let k = spec_kind(es);
    if k == "HorizontalSplitter"@ {
        c matches Components::Splitter(Splitters::HorizontalSplitter(h)) && splitter_from(h.splitter, es, k)
    } else if k == "VerticalSplitter"@ {
        c matches Components::Splitter(Splitters::VerticalSplitter(h)) && splitter_from(h.splitter, es, k)
    } else if k == "EmptySpace"@ {
        c matches Components::EmptySpace(x) && x.name@ == name_or(es, k)
    } else if k == "PlaceHolder"@ {
        c matches Components::PlaceHolder(x) && x.name@ == name_or(es, k) && x.color == spec_parse_color(es, "color"@)
    } else if k == "TagDisplay"@ {
        &&& c matches Components::TagDisplay(x)
        &&& x.name@ == name_or(es, k)
        &&& x.color == spec_parse_color(es, "color"@)
        &&& x.align == spec_parse_alignment(es, "alignment"@)
        &&& x.tag@ == match spec_parse_string(es, "tag"@) {
            Some(t) => t,
            None => "Artist"@,
        }
        &&& x.contents@.len() == 0
    } else if k == "TitleDisplay"@ {
        &&& c matches Components::TitleDisplay(x)
        &&& x.name@ == name_or(es, k)
        &&& x.color == spec_parse_color(es, "color"@)
        &&& x.alignment == spec_parse_alignment(es, "alignment"@)
        &&& x.contents@.len() == 0
    } else if k == "Queue"@ {
        &&& c matches Components::Queue(x)
        &&& menu_from(x.menu, es, k)
        &&& x.menu.items@.len() == 0 && x.tracks@.len() == 0 && x.ids@.len() == 0 && x.now_playing is None
    } else if k == "PlaylistMenu"@ {
        &&& c matches Components::PlaylistMenu(x)
        &&& menu_from(x.menu, es, k)
        &&& x.menu.items@.len() == 0 && x.playlists@.len() == 0
    } else if k == "TrackMenu"@ {
        &&& c matches Components::TrackMenu(x)
        &&& menu_from(x.menu, es, k)
        &&& x.menu.items@.len() == 0 && x.tracks@.len() == 0
        &&& x.parent.spec_parent() == spec_parse_optional_string(es, "parent"@)
    } else if k == "TagMenu"@ {
        &&& c matches Components::TagMenu(x)
        &&& menu_from(x.menu, es, k)
        &&& x.menu.items@.len() == 0 && x.tracks@.len() == 0
        &&& x.tag@ == match spec_parse_string(es, "tag"@) {
            Some(t) => t,
            None => "Artist"@,
        }
        &&& opt_view(x.multitag_separator) == spec_parse_optional_string(es, "multitag_separator"@)
        &&& x.parent.spec_parent() == spec_parse_optional_string(es, "parent"@)
    } else if k == "StyleMenu"@ {
        &&& c matches Components::StyleMenu(x)
        &&& menu_from(x.menu, es, k)
        &&& x.color == x.menu.color
        &&& items_view(x.menu.items@) == seq!["<All>"@] && x.styles@.len() == 0
        &&& x.parent.spec_parent() == spec_parse_optional_string(es, "parent"@)
    } else {
        c is ErrorBox
    }
}

fn opt_str_or<'a>(o: Option<&'a str>, dflt: &'a str) -> (r: &'a str)
    ensures
        r@ == match o {
            Some(s) => s@,
            None => dflt@,
        },
{
    match o {
        Some(s) => s,
        None => dflt,
    }
}

pub fn parse_style_menu(obj: &Vec<(String, Json)>) -> (c: Components)
    ensures
        c matches Components::StyleMenu(x) && menu_from(x.menu, entries_view(obj@), "StyleMenu"@) && x.color == x.menu.color
            && items_view(x.menu.items@) == seq!["<All>"@] && x.styles@.len() == 0 && x.parent.spec_parent()
            == spec_parse_optional_string(entries_view(obj@), "parent"@),
{
    Components::StyleMenu(
        StyleMenu::new(
            opt_str_or(parse_string(obj, "name"), "StyleMenu"),
            parse_color(obj, "color"),
            parse_color(obj, "focus_color"),
            parse_optional_string(obj, "title"),
            parse_alignment(obj, "title_alignment"),
            parse_alignment(obj, "menu_alignment"),
            parse_optional_string(obj, "parent"),
        ),
    )
}

pub fn parse_tag_menu(obj: &Vec<(String, Json)>) -> (c: Components)
    ensures
        c matches Components::TagMenu(x) && menu_from(x.menu, entries_view(obj@), "TagMenu"@) && x.menu.items@.len()
            == 0 && x.tracks@.len() == 0 && x.tag@ == match spec_parse_string(entries_view(obj@), "tag"@) {
            Some(t) => t,
            None => "Artist"@,
        } && opt_view(x.multitag_separator) == spec_parse_optional_string(entries_view(obj@), "multitag_separator"@)
            && x.parent.spec_parent() == spec_parse_optional_string(entries_view(obj@), "parent"@),
{
    Components::TagMenu(
        TagMenu::new(
            opt_str_or(parse_string(obj, "name"), "TagMenu"),
            parse_color(obj, "color"),
            parse_color(obj, "focus_color"),
            parse_optional_string(obj, "title"),
            parse_alignment(obj, "title_alignment"),
            parse_alignment(obj, "menu_alignment"),
            opt_str_or(parse_string(obj, "tag"), "Artist"),
            parse_optional_string(obj, "multitag_separator"),
            parse_optional_string(obj, "parent"),
        ),
    )
}

pub fn parse_track_menu(obj: &Vec<(String, Json)>) -> (c: Components)
    ensures
        c matches Components::TrackMenu(x) && menu_from(x.menu, entries_view(obj@), "TrackMenu"@) && x.menu.items@.len()
            == 0 && x.tracks@.len() == 0 && x.parent.spec_parent() == spec_parse_optional_string(
            entries_view(obj@),
            "parent"@,
        ),
{
    Components::TrackMenu(
        TrackMenu::new(
            opt_str_or(parse_string(obj, "name"), "TrackMenu"),
            parse_color(obj, "color"),
            parse_color(obj, "focus_color"),
            parse_optional_string(obj, "title"),
            parse_alignment(obj, "title_alignment"),
            parse_alignment(obj, "menu_alignment"),
            parse_optional_string(obj, "parent"),
        ),
    )
}

pub fn parse_playlist_menu(obj: &Vec<(String, Json)>) -> (c: Components)
    ensures
        c matches Components::PlaylistMenu(x) && menu_from(x.menu, entries_view(obj@), "PlaylistMenu"@)
            && x.menu.items@.len() == 0 && x.playlists@.len() == 0,
{
    Components::PlaylistMenu(
        PlaylistMenu::new(
            opt_str_or(parse_string(obj, "name"), "PlaylistMenu"),
            parse_color(obj, "color"),
            parse_color(obj, "focus_color"),
            parse_optional_string(obj, "title"),
            parse_alignment(obj, "title_alignment"),
            parse_alignment(obj, "menu_alignment"),
        ),
    )
}

pub fn parse_queue(obj: &Vec<(String, Json)>) -> (c: Components)
    ensures
        c matches Components::Queue(x) && menu_from(x.menu, entries_view(obj@), "Queue"@) && x.menu.items@.len() == 0
            && x.tracks@.len() == 0 && x.ids@.len() == 0 && x.now_playing is None,
{
    Components::Queue(
        Queue::new(
            opt_str_or(parse_string(obj, "name"), "Queue"),
            parse_color(obj, "color"),
            parse_color(obj, "focus_color"),
            parse_optional_string(obj, "title"),
            parse_alignment(obj, "title_alignment"),
            parse_alignment(obj, "menu_alignment"),
        ),
    )
}

pub fn parse_title_display(obj: &Vec<(String, Json)>) -> (c: Components)
    ensures
        c matches Components::TitleDisplay(x) && x.name@ == name_or(entries_view(obj@), "TitleDisplay"@) && x.color
            == spec_parse_color(entries_view(obj@), "color"@) && x.alignment == spec_parse_alignment(
            entries_view(obj@),
            "alignment"@,
        ) && x.contents@.len() == 0,
{
    Components::TitleDisplay(
        TitleDisplay::new(
            opt_str_or(parse_string(obj, "name"), "TitleDisplay"),
            parse_color(obj, "color"),
            parse_alignment(obj, "alignment"),
        ),
    )
}

pub fn parse_tag_display(obj: &Vec<(String, Json)>) -> (c: Components)
    ensures
        c matches Components::TagDisplay(x) && x.name@ == name_or(entries_view(obj@), "TagDisplay"@) && x.color
            == spec_parse_color(entries_view(obj@), "color"@) && x.align == spec_parse_alignment(
            entries_view(obj@),
            "alignment"@,
        ) && x.tag@ == match spec_parse_string(entries_view(obj@), "tag"@) {
            Some(t) => t,
            None => "Artist"@,
        } && x.contents@.len() == 0,
{
    Components::TagDisplay(
        TagDisplay::new(
            opt_str_or(parse_string(obj, "name"), "TagDisplay"),
            parse_color(obj, "color"),
            parse_alignment(obj, "alignment"),
            opt_str_or(parse_string(obj, "tag"), "Artist"),
        ),
    )
}

pub fn parse_place_holder(obj: &Vec<(String, Json)>) -> (c: Components)
    ensures
        c matches Components::PlaceHolder(x) && x.name@ == name_or(entries_view(obj@), "PlaceHolder"@) && x.color
            == spec_parse_color(entries_view(obj@), "color"@),
{
    Components::PlaceHolder(PlaceHolder::new(opt_str_or(parse_string(obj, "name"), "PlaceHolder"), parse_color(obj, "color")))
}

pub fn parse_empty_space(obj: &Vec<(String, Json)>) -> (c: Components)
    ensures
        c matches Components::EmptySpace(x) && x.name@ == name_or(entries_view(obj@), "EmptySpace"@),
{
    Components::EmptySpace(EmptySpace::new(opt_str_or(parse_string(obj, "name"), "EmptySpace")))
}

/// A description's own entry in the table: its name and itself, when it
/// makes a component.
pub open spec fn own(o: Seq<(Seq<char>, JsonView)>) -> Seq<(Seq<char>, Seq<(Seq<char>, JsonView)>)> {
    if spec_makes(o) { seq![(spec_name(o), o)] } else { Seq::empty() }
}

/// The components that reading a description puts into the table before
/// it returns its own: for a splitter, those of its children in order,
/// each child's nested ones before the child itself.
pub open spec fn nested_inserts(es: Seq<(Seq<char>, JsonView)>) -> Seq<(Seq<char>, Seq<(Seq<char>, JsonView)>)>
    decreases edepth(es), 1nat, 0nat,
{
    let k = spec_kind(es);
    if k == "HorizontalSplitter"@ || k == "VerticalSplitter"@ {
        inserts_of(child_objects(es), edepth(es))
    } else {
        Seq::empty()
    }
}

/// The components that reading the descriptions `objs` in turn puts into
/// the table; descriptions nested `bound` deep or more are left out (none
/// are, where this is used).
pub open spec fn inserts_of(objs: Seq<Seq<(Seq<char>, JsonView)>>, bound: nat) -> Seq<(Seq<char>, Seq<(Seq<char>, JsonView)>)>
    decreases bound, 0nat, objs.len(),
{
    if objs.len() == 0 {
        Seq::empty()
    } else {
        let o = objs.last();
        let rest = inserts_of(objs.drop_last(), bound);
        if edepth(o) < bound {
            rest + nested_inserts(o) + own(o)
        } else {
            rest
        }
    }
}

/// The description last put into the table under `k`, if any.
pub open spec fn last_with(ins: Seq<(Seq<char>, Seq<(Seq<char>, JsonView)>)>, k: Seq<char>) -> Option<Seq<(Seq<char>, JsonView)>>
    decreases ins.len(),
{
    if ins.len() == 0 {
        None
    } else if ins.last().0 == k {
        Some(ins.last().1)
    } else {
        last_with(ins.drop_last(), k)
    }
}

/// `m1` is `m0` after putting in the components described by `ins`, in
/// order, each replacing any component of the same name.
pub open spec fn applied(
    m0: Map<Seq<char>, Components>,
    m1: Map<Seq<char>, Components>,
    ins: Seq<(Seq<char>, Seq<(Seq<char>, JsonView)>)>,
) -> bool {
    forall|k: Seq<char>|
        #![trigger last_with(ins, k)]
        #![trigger m1.contains_key(k)]
        match last_with(ins, k) {
            Some(o) => m1.contains_key(k) && built(m1[k], o),
            None => (m1.contains_key(k) <==> m0.contains_key(k)) && (m0.contains_key(k) ==> m1[k] == m0[k]),
        }
}

proof fn lemma_last_with_concat(
    a: Seq<(Seq<char>, Seq<(Seq<char>, JsonView)>)>,
    b: Seq<(Seq<char>, Seq<(Seq<char>, JsonView)>)>,
    k: Seq<char>,
)
    ensures
        last_with(a + b, k) == match last_with(b, k) {
            Some(o) => Some(o),
            None => last_with(a, k),
        },
    decreases b.len(),
{
    if b.len() == 0 {
        assert(a + b =~= a);
    } else {
        assert((a + b).drop_last() =~= a + b.drop_last());
        assert((a + b).last() == b.last());
        lemma_last_with_concat(a, b.drop_last(), k);
    }
}

proof fn lemma_applied_trans(
    m0: Map<Seq<char>, Components>,
    m1: Map<Seq<char>, Components>,
    m2: Map<Seq<char>, Components>,
    a: Seq<(Seq<char>, Seq<(Seq<char>, JsonView)>)>,
    b: Seq<(Seq<char>, Seq<(Seq<char>, JsonView)>)>,
)
    requires
        applied(m0, m1, a),
        applied(m1, m2, b),
    ensures
        applied(m0, m2, a + b),
{
    assert forall|k: Seq<char>|
        #![trigger last_with(a + b, k)]
        #![trigger m2.contains_key(k)]
        match last_with(a + b, k) {
            Some(o) => m2.contains_key(k) && built(m2[k], o),
            None => (m2.contains_key(k) <==> m0.contains_key(k)) && (m0.contains_key(k) ==> m2[k] == m0[k]),
        } by {
        lemma_last_with_concat(a, b, k);
        assert(match last_with(b, k) {
            Some(o) => m2.contains_key(k) && built(m2[k], o),
            None => (m2.contains_key(k) <==> m1.contains_key(k)) && (m1.contains_key(k) ==> m2[k] == m1[k]),
        });
        assert(match last_with(a, k) {
            Some(o) => m1.contains_key(k) && built(m1[k], o),
            None => (m1.contains_key(k) <==> m0.contains_key(k)) && (m0.contains_key(k) ==> m1[k] == m0[k]),
        });
    }
}

proof fn lemma_applied_none(m: Map<Seq<char>, Components>)
    ensures
        applied(m, m, Seq::empty()),
{
}

proof fn lemma_applied_one(m0: Map<Seq<char>, Components>, k: Seq<char>, c: Components, o: Seq<(Seq<char>, JsonView)>)
    requires
        built(c, o),
    ensures
        applied(m0, m0.insert(k, c), seq![(k, o)]),
{
    let ins = seq![(k, o)];
    assert forall|x: Seq<char>|
        #![trigger last_with(ins, x)]
        #![trigger m0.insert(k, c).contains_key(x)]
        match last_with(ins, x) {
            Some(p) => m0.insert(k, c).contains_key(x) && built(m0.insert(k, c)[x], p),
            None => (m0.insert(k, c).contains_key(x) <==> m0.contains_key(x)) && (m0.contains_key(x) ==> m0.insert(k, c)[x]
                == m0[x]),
        } by {
        assert(ins.drop_last() =~= Seq::<(Seq<char>, Seq<(Seq<char>, JsonView)>)>::empty());
        assert(last_with(ins.drop_last(), x) is None);
        assert(ins.last() == (k, o));
    }
}

proof fn lemma_items_depth(es: Seq<(Seq<char>, JsonView)>)
    ensures
        spec_get(es, "children"@) matches Some(JsonView::Array(xs, _)) ==> forall|k: int| 0 <= k < xs.len() ==> jdepth(
            #[trigger] xs[k],
        ) < edepth(es),
{
    if let Some(JsonView::Array(xs, t)) = spec_get(es, "children"@) {
        lemma_get_elem(es, "children"@);
        let i = choose|i: int| 0 <= i < es.len() && es[i].1 == spec_get(es, "children"@)->0;
        lemma_seq_max(entry_depths(es), i);
        assert(entry_depths(es)[i] == jdepth(es[i].1));
        assert forall|k: int| 0 <= k < xs.len() implies jdepth(#[trigger] xs[k]) < edepth(es) by {
            lemma_seq_max(item_depths(xs), k);
            assert(item_depths(xs)[k] == jdepth(xs[k]));
        }
    }
}

/// Reads the children of a splitter description into panels, putting the
/// components they describe into `map`.
pub fn parse_vector_splitter_children(obj: &Vec<(String, Json)>, map: &mut ComponentMap) -> (r: Vec<Panel>)
    ensures
        r@.len() == child_objects(entries_view(obj@)).len(),
        forall|i: int| 0 <= i < r@.len() ==> (#[trigger] r@[i]).spec_size() == panel_size(
            child_objects(entries_view(obj@))[i],
        ) && r@[i].spec_key() == spec_name(child_objects(entries_view(obj@))[i]),
        applied(old(map).spec_map(), final(map).spec_map(), inserts_of(child_objects(entries_view(obj@)), edepth(entries_view(obj@)))),
    decreases edepth(entries_view(obj@)), 0nat,
{
    let ghost ev = entries_view(obj@);
    let ghost bound = edepth(ev);
    let ghost m0 = map.spec_map();
    let mut panels: Vec<Panel> = Vec::new();
    match get(obj, "children") {
        Some(Json::Array { items, text }) => {
            let ghost xs = items@.map_values(|x: Json| json_view(x));
            proof {
                lemma_array_view(*items, *text);
                lemma_items_depth(ev);
                assert(xs.take(0) =~= Seq::<JsonView>::empty());
                lemma_applied_none(m0);
            }
            let mut i: usize = 0;
            while i < items.len()
                invariant
                    ev == entries_view(obj@),
                    bound == edepth(ev),
                    xs == items@.map_values(|x: Json| json_view(x)),
                    forall|k: int| 0 <= k < xs.len() ==> jdepth(#[trigger] xs[k]) < bound,
                    i <= items@.len(),
                    panels@.len() == spec_objects(xs.take(i as int)).len(),
                    forall|j: int| 0 <= j < panels@.len() ==> (#[trigger] panels@[j]).spec_size() == panel_size(
                        spec_objects(xs.take(i as int))[j],
                    ) && panels@[j].spec_key() == spec_name(spec_objects(xs.take(i as int))[j]),
                    applied(m0, map.spec_map(), inserts_of(spec_objects(xs.take(i as int)), bound)),
                decreases items@.len() - i,
            {
                let ghost prev = spec_objects(xs.take(i as int));
                let ghost mid_map = map.spec_map();
                proof {
                    assert(xs.take(i + 1).drop_last() =~= xs.take(i as int));
                    assert(xs.take(i + 1).last() == xs[i as int]);
                }
                match &items[i] {
                    Json::Object { entries, text: t } => {
                        let ghost cv = entries_view(entries@);
                        proof {
                            lemma_object_view(*entries, *t);
                            assert(xs[i as int] == JsonView::Object(cv, t@));
                            assert(jdepth(xs[i as int]) == 1 + edepth(cv));
                            assert(spec_objects(xs.take(i + 1)) == prev.push(cv));
                        }
                        let (name, c) = parse_component(entries, map);
                        let ghost after_children = map.spec_map();
                        let size = match parse_size(entries) {
                            Some(s) => s,
                            None => Size::Remainder,
                        };
                        let key = name.clone();
                        match c {
                            Some(c) => {
                                map.insert(key, c);
                                proof {
                                    lemma_applied_one(after_children, name@, c, cv);
                                }
                            },
                            None => {
                                proof {
                                    lemma_applied_none(after_children);
                                }
                            },
                        }
                        proof {
                            assert(own(cv) =~= if spec_makes(cv) { seq![(spec_name(cv), cv)] } else { Seq::empty() });
                            lemma_applied_trans(m0, mid_map, after_children, inserts_of(prev, bound), nested_inserts(cv));
                            lemma_applied_trans(
                                m0,
                                after_children,
                                map.spec_map(),
                                inserts_of(prev, bound) + nested_inserts(cv),
                                own(cv),
                            );
                            assert(inserts_of(prev.push(cv), bound) == inserts_of(prev, bound) + nested_inserts(cv) + own(cv)) by {
                                assert(prev.push(cv).drop_last() =~= prev);
                            }
                        }
                        let ghost before_push = panels@;
                        panels.push(Panel::new(size, name));
                        proof {
                            assert forall|j: int| 0 <= j < panels@.len() implies (#[trigger] panels@[j]).spec_size() == panel_size(
                                spec_objects(xs.take(i + 1))[j],
                            ) && panels@[j].spec_key() == spec_name(spec_objects(xs.take(i + 1))[j]) by {
                                if j < before_push.len() {
                                    assert(panels@[j] == before_push[j]);
                                    assert(spec_objects(xs.take(i + 1))[j] == prev[j]);
                                }
                            }
                        }
                    },
                    _ => {
                        proof {
                            assert(!(xs[i as int] is Object)) by {
                                match items@[i as int] {
                                    Json::Object { entries, text } => {},
                                    _ => {},
                                }
                            }
                            assert(spec_objects(xs.take(i + 1)) == prev);
                        }
                    },
                }
                i = i + 1;
            }
            proof {
                assert(xs.take(items@.len() as int) =~= xs);
            }
        },
        _ => {
            proof {
                lemma_applied_none(m0);
                assert(child_objects(ev) =~= Seq::<Seq<(Seq<char>, JsonView)>>::empty());
            }
        },
    }
    panels
}

/// Reads a description into its name and the component it makes, if any,
/// putting the components that a splitter's children describe into `map`.
/// A description of unknown kind, or one with neither a kind nor a name,
/// makes an error box.
pub fn parse_component(obj: &Vec<(String, Json)>, map: &mut ComponentMap) -> (r: (String, Option<Components>))
    ensures
        r.0@ == spec_name(entries_view(obj@)),
        r.1 is Some <==> spec_makes(entries_view(obj@)),
        r.1 matches Some(c) ==> built(c, entries_view(obj@)),
        applied(old(map).spec_map(), final(map).spec_map(), nested_inserts(entries_view(obj@))),
    decreases edepth(entries_view(obj@)), 2nat,
{
    let ghost ev = entries_view(obj@);
    proof {
        lemma_applied_none(map.spec_map());
        reveal_strlit("HorizontalSplitter");
        reveal_strlit("VerticalSplitter");
        reveal_strlit("EmptySpace");
        reveal_strlit("PlaceHolder");
        reveal_strlit("TagDisplay");
        reveal_strlit("TitleDisplay");
        reveal_strlit("Queue");
        reveal_strlit("PlaylistMenu");
        reveal_strlit("TrackMenu");
        reveal_strlit("TagMenu");
        reveal_strlit("StyleMenu");
        reveal_strlit("ErrorBox");
    }
    match get(obj, "component") {
        Some(component) => {
            let c = match component {
                Json::Str(k) => {
                    if str_eq(k.as_str(), "HorizontalSplitter") {
                        parse_horizontal_splitter(obj, map)
                    } else if str_eq(k.as_str(), "VerticalSplitter") {
                        parse_vertical_splitter(obj, map)
                    } else if str_eq(k.as_str(), "EmptySpace") {
                        parse_empty_space(obj)
                    } else if str_eq(k.as_str(), "PlaceHolder") {
                        parse_place_holder(obj)
                    } else if str_eq(k.as_str(), "TagDisplay") {
                        parse_tag_display(obj)
                    } else if str_eq(k.as_str(), "TitleDisplay") {
                        parse_title_display(obj)
                    } else if str_eq(k.as_str(), "Queue") {
                        parse_queue(obj)
                    } else if str_eq(k.as_str(), "PlaylistMenu") {
                        parse_playlist_menu(obj)
                    } else if str_eq(k.as_str(), "TrackMenu") {
                        parse_track_menu(obj)
                    } else if str_eq(k.as_str(), "TagMenu") {
                        parse_tag_menu(obj)
                    } else if str_eq(k.as_str(), "StyleMenu") {
                        parse_style_menu(obj)
                    } else {
                        Components::ErrorBox(ErrorBox::new())
                    }
                },
                _ => Components::ErrorBox(ErrorBox::new()),
            };
            assert(c.spec_name() == spec_name(ev));
            assert(applied(old(map).spec_map(), map.spec_map(), nested_inserts(ev)));
            (c.name().to_string(), Some(c))
        },
        None => {
            assert(spec_get(ev, "component"@) is None);
            assert(spec_kind(ev) == Seq::<char>::empty() || spec_kind(ev) == "ErrorBox"@);
            assert(spec_kind(ev) != "HorizontalSplitter"@);
            assert(nested_inserts(ev) =~= Seq::<(Seq<char>, Seq<(Seq<char>, JsonView)>)>::empty());
            match get(obj, "name") {
                Some(Json::Str(n)) => (n.clone(), None),
                _ => (ErrorBox::new().name().to_string(), Some(Components::ErrorBox(ErrorBox::new()))),
            }
        },
    }
}

/// Reads a description of a horizontal splitter.
pub fn parse_horizontal_splitter(obj: &Vec<(String, Json)>, map: &mut ComponentMap) -> (c: Components)
    ensures
        c matches Components::Splitter(Splitters::HorizontalSplitter(h)) && splitter_from(
            h.splitter,
            entries_view(obj@),
            "HorizontalSplitter"@,
        ),
        applied(old(map).spec_map(), final(map).spec_map(), inserts_of(child_objects(entries_view(obj@)), edepth(entries_view(obj@)))),
    decreases edepth(entries_view(obj@)), 1nat,
{
    let name = opt_str_or(parse_string(obj, "name"), "HorizontalSplitter");
    let borders = match parse_bool(obj, "borders") {
        Some(b) => b,
        None => true,
    };
    let panels = parse_vector_splitter_children(obj, map);
    Components::Splitter(Splitters::HorizontalSplitter(HorizontalSplitter::new(name, borders, panels)))
}

/// Reads a description of a vertical splitter.
pub fn parse_vertical_splitter(obj: &Vec<(String, Json)>, map: &mut ComponentMap) -> (c: Components)
    ensures
        c matches Components::Splitter(Splitters::VerticalSplitter(h)) && splitter_from(
            h.splitter,
            entries_view(obj@),
            "VerticalSplitter"@,
        ),
        applied(old(map).spec_map(), final(map).spec_map(), inserts_of(child_objects(entries_view(obj@)), edepth(entries_view(obj@)))),
    decreases edepth(entries_view(obj@)), 1nat,
{
    let name = opt_str_or(parse_string(obj, "name"), "VerticalSplitter");
    let borders = match parse_bool(obj, "borders") {
        Some(b) => b,
        None => true,
    };
    let panels = parse_vector_splitter_children(obj, map);
    Components::Splitter(Splitters::VerticalSplitter(VerticalSplitter::new(name, borders, panels)))
}

/// The components a whole layout file puts into the table: those of each
/// object of the top-level array, in turn (nothing when the file holds no
/// array).
pub open spec fn root_inserts(v: JsonView) -> Seq<(Seq<char>, Seq<(Seq<char>, JsonView)>)> {
    match v {
        JsonView::Array(xs, _) => inserts_of(spec_objects(xs), jdepth(v)),
        _ => Seq::empty(),
    }
}

/// Builds the table of components a layout file describes. Objects of the
/// top-level array are read in turn; other values are skipped.
pub fn load_from_json(v: &Json) -> (r: ComponentMap)
    ensures
        applied(Map::empty(), r.spec_map(), root_inserts(json_view(*v))),
{
    let mut map = ComponentMap::new();
    let ghost m0 = map.spec_map();
    proof {
        lemma_applied_none(m0);
    }
    match v {
        Json::Array { items, text } => {
            let ghost xs = items@.map_values(|x: Json| json_view(x));
            let ghost bound = jdepth(json_view(*v));
            proof {
                lemma_array_view(*items, *text);
                assert(xs.take(0) =~= Seq::<JsonView>::empty());
                assert forall|k: int| 0 <= k < xs.len() implies jdepth(#[trigger] xs[k]) < bound by {
                    lemma_seq_max(item_depths(xs), k);
                    assert(item_depths(xs)[k] == jdepth(xs[k]));
                }
            }
            let mut i: usize = 0;
            while i < items.len()
                invariant
                    m0 == Map::<Seq<char>, Components>::empty(),
                    xs == items@.map_values(|x: Json| json_view(x)),
                    forall|k: int| 0 <= k < xs.len() ==> jdepth(#[trigger] xs[k]) < bound,
                    i <= items@.len(),
                    applied(m0, map.spec_map(), inserts_of(spec_objects(xs.take(i as int)), bound)),
                decreases items@.len() - i,
            {
                let ghost prev = spec_objects(xs.take(i as int));
                let ghost mid_map = map.spec_map();
                proof {
                    assert(xs.take(i + 1).drop_last() =~= xs.take(i as int));
                    assert(xs.take(i + 1).last() == xs[i as int]);
                }
                match &items[i] {
                    Json::Object { entries, text: t } => {
                        let ghost cv = entries_view(entries@);
                        proof {
                            lemma_object_view(*entries, *t);
                            assert(xs[i as int] == JsonView::Object(cv, t@));
                            assert(spec_objects(xs.take(i + 1)) == prev.push(cv));
                        }
                        let (name, c) = parse_component(entries, &mut map);
                        let ghost after_children = map.spec_map();
                        match c {
                            Some(c) => {
                                map.insert(name, c);
                                proof {
                                    lemma_applied_one(after_children, spec_name(cv), c, cv);
                                }
                            },
                            None => {
                                proof {
                                    lemma_applied_none(after_children);
                                }
                            },
                        }
                        proof {
                            assert(own(cv) =~= if spec_makes(cv) { seq![(spec_name(cv), cv)] } else { Seq::empty() });
                            lemma_applied_trans(m0, mid_map, after_children, inserts_of(prev, bound), nested_inserts(cv));
                            lemma_applied_trans(
                                m0,
                                after_children,
                                map.spec_map(),
                                inserts_of(prev, bound) + nested_inserts(cv),
                                own(cv),
                            );
                            assert(inserts_of(prev.push(cv), bound) == inserts_of(prev, bound) + nested_inserts(cv) + own(cv)) by {
                                assert(prev.push(cv).drop_last() =~= prev);
                            }
                        }
                    },
                    _ => {
                        proof {
                            assert(!(xs[i as int] is Object)) by {
                                match items@[i as int] {
                                    Json::Object { entries, text } => {},
                                    _ => {},
                                }
                            }
                            assert(spec_objects(xs.take(i + 1)) == prev);
                        }
                    },
                }
                i = i + 1;
            }
            proof {
                assert(xs.take(items@.len() as int) =~= xs);
            }
        },
        _ => {},
    }
    map
}

/// What the `json` crate's reader reads from a text, as plain values;
/// `None` where it refuses the text.
pub uninterp spec fn spec_json_read(text: Seq<char>) -> Option<JsonView>;

/// A value of the `json` crate, as the JSON reader of the crate gives it.
#[verifier::external_type_specification]
#[verifier::external_body]
pub struct ExJsonValue(JsonValue);

/// Copies a value of the `json` crate into a `Json`, one variant for one:
/// short and long strings alike become `Str`; a number keeps its parts
/// (`as_parts`) and, like objects and arrays, the text its `Display`
/// prints; objects keep their entries in the crate's order.
#[verifier::external_body]
fn from_json_value(v: &JsonValue) -> (r: Json) {
    let text = v.to_string();
    match v {
        JsonValue::Null => Json::Null,
        JsonValue::Short(s) => Json::Str(s.to_string()),
        JsonValue::String(s) => Json::Str(s.clone()),
        JsonValue::Number(n) => {
            let (positive, mantissa, exponent) = n.as_parts();
            Json::Number { positive, mantissa, exponent, text }
        },
        JsonValue::Boolean(b) => Json::Boolean(*b),
        JsonValue::Object(o) => Json::Object { entries: o.iter().map(|(k, x)| (k.to_string(), from_json_value(x))).collect(), text },
        JsonValue::Array(a) => Json::Array { items: a.iter().map(from_json_value).collect(), text },
    }
}

/// Reads JSON text with the `json` crate's `parse`. What it reads is
/// named, not written out: the grammar and number printing of the crate
/// take pages; it depends on the text alone.
#[verifier::external_body]
fn json_parse(text: &str) -> (r: Option<Json>)
    ensures
        match r {
            Some(j) => spec_json_read(text@) == Some(json_view(j)),
            None => spec_json_read(text@) is None,
        },
{
    match json::parse(text) {
        Ok(v) => Some(from_json_value(&v)),
        Err(_) => None,
    }
}

/// Reads the text of a layout file into the table of components it
/// describes; `None` when the text is not JSON.
pub fn load(text: &str) -> (r: Option<ComponentMap>)
    ensures
        match r {
            Some(m) => spec_json_read(text@) matches Some(v) && applied(Map::empty(), m.spec_map(), root_inserts(v)),
            None => spec_json_read(text@) is None,
        },
{
    match json_parse(text) {
        Some(v) => Some(load_from_json(&v)),
        None => None,
    }
}

/// A component read from a layout file has the shape components keep.
pub proof fn lemma_built_wf(c: Components, es: Seq<(Seq<char>, JsonView)>)
    requires
        built(c, es),
    ensures
        c.wf(),
{
    match c {
        Components::StyleMenu(x) => {
            assert(items_view(x.menu.items@).len() == x.menu.items@.len());
        },
        _ => {},
    }
}

/// Every component of a table built from a layout file has the shape
/// components keep.
pub proof fn lemma_loaded_wf(m: Map<Seq<char>, Components>, ins: Seq<(Seq<char>, Seq<(Seq<char>, JsonView)>)>)
    requires
        applied(Map::empty(), m, ins),
    ensures
        forall|k: Seq<char>| #[trigger] m.contains_key(k) ==> m[k].wf(),
{
    assert forall|k: Seq<char>| #[trigger] m.contains_key(k) implies m[k].wf() by {
        if let Some(o) = last_with(ins, k) {
            lemma_built_wf(m[k], o);
        }
    }
}

} // verus!
