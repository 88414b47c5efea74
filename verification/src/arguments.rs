//! The argument language of asset headers: lines of `key=value`, where a
//! value in braces is a nested map or a comma-separated list, and any other
//! value is an integer, a floating-point number or text.
//!
//! Parsing is total. Malformed text never fails: the fragment that cannot be
//! read as intended is kept as text or left out.

use crate::text::{
    same_text,
    from_chars, integer_literal, is_float, is_float_literal, lemma_space_bounds, parse_integer,
    to_chars, trim, trimmed,
};
use vstd::prelude::*;

verus! {

/// A value that is neither a list nor a map.
#[derive(Debug)]
pub enum Scalar {
    /// Text that is no number.
    Text(String),
    /// A decimal integer.
    Integer(i64),
    /// A floating-point literal, kept as it was written.
    Float(String),
}

/// A parsed argument.
#[derive(Debug)]
pub enum ArgumentValue {
    Scalar(Scalar),
    /// The items of a list, in the order in which they were written.
    List(Vec<ArgumentValue>),
    /// The entries of a map, in the order in which they were written. A key
    /// may occur more than once.
    Mapping(Vec<(String, ArgumentValue)>),
}

/// What a [`Scalar`] stands for.
pub enum ScalarModel {
    Text(Seq<char>),
    Integer(int),
    Float(Seq<char>),
}

/// What an [`ArgumentValue`] stands for.
pub enum ArgumentModel {
    Scalar(ScalarModel),
    List(Seq<ArgumentModel>),
    Mapping(Seq<(Seq<char>, ArgumentModel)>),
}

impl View for Scalar {
    type V = ScalarModel;

    open spec fn view(&self) -> ScalarModel {
        match self {
            Scalar::Text(text) => ScalarModel::Text(text@),
            Scalar::Integer(n) => ScalarModel::Integer(*n as int),
            Scalar::Float(text) => ScalarModel::Float(text@),
        }
    }
}

impl View for ArgumentValue {
    type V = ArgumentModel;

    open spec fn view(&self) -> ArgumentModel
        decreases self,
    {
        match self {
            ArgumentValue::Scalar(scalar) => ArgumentModel::Scalar(scalar@),
            ArgumentValue::List(items) => ArgumentModel::List(
                Seq::new(
                    items@.len(),
                    |i: int|
                        if 0 <= i < items@.len() {
                            items@[i].view()
                        } else {
                            ArgumentModel::List(Seq::empty())
                        },
                ),
            ),
            ArgumentValue::Mapping(entries) => ArgumentModel::Mapping(
                Seq::new(
                    entries@.len(),
                    |i: int|
                        if 0 <= i < entries@.len() {
                            (entries@[i].0@, entries@[i].1.view())
                        } else {
                            (Seq::empty(), ArgumentModel::List(Seq::empty()))
                        },
                ),
            ),
        }
    }
}

/// The scalar that `text` writes: an integer if it is an integer literal,
/// else a floating-point number if it is such a literal, else the text itself.
pub open spec fn scalar_of(text: Seq<char>) -> ScalarModel {
    if integer_literal(text) is Some {
        ScalarModel::Integer(integer_literal(text)->0)
    } else if is_float_literal(text) {
        ScalarModel::Float(text)
    } else {
        ScalarModel::Text(text)
    }
}

/// What a scan for braces has seen of a value.
pub struct Shape {
    /// How many braces are open.
    pub depth: nat,
    /// Whether a brace was opened outside any braces.
    pub braced: bool,
    /// Whether no `=` has stood directly inside the outermost braces since
    /// the last of them was opened.
    pub listed: bool,
}

/// The shape after one more character. A closing brace with none open is
/// passed over.
pub open spec fn shape_step(shape: Shape, c: char) -> Shape {
    if c == '{' {
        if shape.depth == 0 {
            Shape { depth: 1, braced: true, listed: true }
        } else {
            Shape { depth: shape.depth + 1, ..shape }
        }
    } else if c == '}' {
        Shape { depth: if shape.depth > 0 { (shape.depth - 1) as nat } else { 0 }, ..shape }
    } else if c == '=' && shape.depth == 1 {
        Shape { listed: false, ..shape }
    } else {
        shape
    }
}

/// The shape of `text`.
pub open spec fn shape_of(text: Seq<char>) -> Shape
    decreases text.len(),
{
    if text.len() == 0 {
        Shape { depth: 0, braced: false, listed: false }
    } else {
        shape_step(shape_of(text.drop_last()), text.last())
    }
}

/// What a scan for the items of a list has gathered.
pub struct ListScan {
    /// How many braces are open inside the list.
    pub depth: nat,
    /// The characters of the item that is being read.
    pub current: Seq<char>,
    /// The items read so far, trimmed.
    pub items: Seq<Seq<char>>,
    /// Whether the brace that closes the list was met.
    pub closed: bool,
}

/// The scan after one more character. A comma outside inner braces ends an
/// item, and the closing brace of the list ends the last one; what follows
/// that brace is passed over.
pub open spec fn list_step(scan: ListScan, c: char) -> ListScan {
    if scan.closed {
        scan
    } else if c == '{' {
        ListScan { depth: scan.depth + 1, current: scan.current.push(c), ..scan }
    } else if c == '}' && scan.depth == 0 {
        ListScan { items: scan.items.push(trimmed(scan.current)), closed: true, ..scan }
    } else if c == '}' {
        ListScan { depth: (scan.depth - 1) as nat, current: scan.current.push(c), ..scan }
    } else if c == ',' && scan.depth == 0 {
        ListScan { items: scan.items.push(trimmed(scan.current)), current: Seq::empty(), ..scan }
    } else {
        ListScan { current: scan.current.push(c), ..scan }
    }
}

/// The scan of all of `body`.
pub open spec fn list_scan(body: Seq<char>) -> ListScan
    decreases body.len(),
{
    if body.len() == 0 {
        ListScan { depth: 0, current: Seq::empty(), items: Seq::empty(), closed: false }
    } else {
        list_step(list_scan(body.drop_last()), body.last())
    }
}

/// `text` without its first character, if it has one.
pub open spec fn after_first(text: Seq<char>) -> Seq<char> {
    if text.len() > 0 {
        text.drop_first()
    } else {
        text
    }
}

/// The items of the list that `text` writes. The first character of `text`
/// is taken for the opening brace. An item that no comma and no closing brace
/// ends is left out.
pub open spec fn list_items(text: Seq<char>) -> Seq<Seq<char>> {
    list_scan(after_first(text)).items
}

/// What a scan for the entries of a map has gathered.
pub struct MapScan {
    /// How many braces are open inside the map.
    pub depth: nat,
    /// The key of the entry that is being read; empty while there is none.
    pub key: Seq<char>,
    /// The characters read since the last `=` or the last end of an entry.
    pub current: Seq<char>,
    /// The keys and the raw values of the entries read so far.
    pub entries: Seq<(Seq<char>, Seq<char>)>,
    /// Whether the brace that closes the map was met.
    pub closed: bool,
}

/// The scan after one more character. Outside inner braces an `=` makes the
/// trimmed text before it the key, and a line feed ends the entry if there is
/// a key. The closing brace of the map ends the scan.
pub open spec fn map_step(scan: MapScan, c: char) -> MapScan {
    if scan.closed {
        scan
    } else if c == '{' {
        MapScan { depth: scan.depth + 1, current: scan.current.push(c), ..scan }
    } else if c == '}' && scan.depth == 0 {
        MapScan { closed: true, ..scan }
    } else if c == '}' {
        MapScan { depth: (scan.depth - 1) as nat, current: scan.current.push(c), ..scan }
    } else if c == '=' && scan.depth == 0 {
        MapScan { key: trimmed(scan.current), current: Seq::empty(), ..scan }
    } else if c == '\n' && scan.depth == 0 && scan.key.len() > 0 {
        MapScan {
            entries: scan.entries.push((scan.key, scan.current)),
            key: Seq::empty(),
            current: Seq::empty(),
            ..scan
        }
    } else {
        MapScan { current: scan.current.push(c), ..scan }
    }
}

/// The scan of all of `body`.
pub open spec fn map_scan(body: Seq<char>) -> MapScan
    decreases body.len(),
{
    if body.len() == 0 {
        MapScan {
            depth: 0,
            key: Seq::empty(),
            current: Seq::empty(),
            entries: Seq::empty(),
            closed: false,
        }
    } else {
        map_step(map_scan(body.drop_last()), body.last())
    }
}

/// `text` without the brace that opens it, if one does.
pub open spec fn map_body(text: Seq<char>) -> Seq<char> {
    if text.len() > 0 && text[0] == '{' {
        text.drop_first()
    } else {
        text
    }
}

/// The keys and the raw values of the map that `text` writes. The entry that
/// is being read when the map closes or the text ends counts if it has a key.
pub open spec fn map_entries(text: Seq<char>) -> Seq<(Seq<char>, Seq<char>)> {
    let scan = map_scan(map_body(text));
    if scan.key.len() > 0 {
        scan.entries.push((scan.key, scan.current))
    } else {
        scan.entries
    }
}

/// The value that `text` writes: a list if a brace opens outside any braces
/// and no `=` stands directly inside, a map if one does, else a scalar.
pub open spec fn value_of(text: Seq<char>) -> ArgumentModel
    decreases text.len(), 1int,
{
    let shape = shape_of(text);
    if shape.listed {
        list_of(text)
    } else if shape.braced {
        map_of(text)
    } else {
        ArgumentModel::Scalar(scalar_of(text))
    }
}

/// The list that `text` writes. Every item is shorter than `text`
/// ([`lemma_items_shorter`]).
pub open spec fn list_of(text: Seq<char>) -> ArgumentModel
    decreases text.len(), 0int,
{
    let items = list_items(text);
    ArgumentModel::List(
        Seq::new(
            items.len(),
            |i: int|
                if 0 <= i < items.len() && items[i].len() < text.len() {
                    value_of(items[i])
                } else {
                    ArgumentModel::List(Seq::empty())
                },
        ),
    )
}

/// The map that `text` writes. Every raw value is shorter than `text`
/// ([`lemma_entries_shorter`]).
pub open spec fn map_of(text: Seq<char>) -> ArgumentModel
    decreases text.len(), 0int,
{
    let entries = map_entries(text);
    ArgumentModel::Mapping(
        Seq::new(
            entries.len(),
            |i: int|
                if 0 <= i < entries.len() && entries[i].1.len() < text.len() {
                    (entries[i].0, value_of(entries[i].1))
                } else {
                    (Seq::empty(), ArgumentModel::List(Seq::empty()))
                },
        ),
    )
}

proof fn lemma_list_scan_bounds(body: Seq<char>)
    ensures
        list_scan(body).current.len() <= body.len(),
        forall|i: int|
            0 <= i < list_scan(body).items.len() ==> (#[trigger] list_scan(body).items[i]).len()
                <= body.len(),
    decreases body.len(),
{
    if body.len() > 0 {
        lemma_list_scan_bounds(body.drop_last());
        lemma_space_bounds(list_scan(body.drop_last()).current);
    }
}

/// Every item of a list is shorter than the text of the list.
pub proof fn lemma_items_shorter(text: Seq<char>)
    ensures
        forall|i: int|
            0 <= i < list_items(text).len() ==> (#[trigger] list_items(text)[i]).len()
                < text.len(),
{
    lemma_list_scan_bounds(after_first(text));
}

proof fn lemma_map_scan_bounds(body: Seq<char>)
    ensures
        map_scan(body).current.len() <= body.len(),
        map_scan(body).key.len() > 0 ==> map_scan(body).current.len() < body.len(),
        forall|i: int|
            0 <= i < map_scan(body).entries.len() ==> (#[trigger] map_scan(
                body,
            ).entries[i]).1.len() < body.len(),
    decreases body.len(),
{
    if body.len() > 0 {
        lemma_map_scan_bounds(body.drop_last());
    }
}

/// Every raw value of a map is shorter than the text of the map.
pub proof fn lemma_entries_shorter(text: Seq<char>)
    ensures
        forall|i: int|
            0 <= i < map_entries(text).len() ==> (#[trigger] map_entries(text)[i]).1.len()
                < text.len(),
{
    lemma_map_scan_bounds(map_body(text));
}

proof fn lemma_list_closed_stays(body: Seq<char>, k: int)
    requires
        0 <= k <= body.len(),
        list_scan(body.take(k)).closed,
    ensures
        list_scan(body) == list_scan(body.take(k)),
    decreases body.len() - k,
{
    if k < body.len() {
        assert(body.take(k + 1).drop_last() =~= body.take(k));
        lemma_list_closed_stays(body, k + 1);
    } else {
        assert(body.take(k) =~= body);
    }
}

proof fn lemma_map_closed_stays(body: Seq<char>, k: int)
    requires
        0 <= k <= body.len(),
        map_scan(body.take(k)).closed,
    ensures
        map_scan(body) == map_scan(body.take(k)),
    decreases body.len() - k,
{
    if k < body.len() {
        assert(body.take(k + 1).drop_last() =~= body.take(k));
        lemma_map_closed_stays(body, k + 1);
    } else {
        assert(body.take(k) =~= body);
    }
}

/// Reads `text` as a scalar.
pub fn parse_scalar(text: &[char]) -> (scalar: Scalar)
    ensures
        scalar@ == scalar_of(text@),
{
    match parse_integer(text) {
        Some(n) => Scalar::Integer(n),
        None => {
            if is_float(text) {
                Scalar::Float(from_chars(text))
            } else {
                Scalar::Text(from_chars(text))
            }
        },
    }
}

/// Scans `text` for braces: whether one opens outside any braces, and
/// whether the value is then a list.
fn scan_shape(text: &[char]) -> (shape: (bool, bool))
    ensures
        shape.0 == shape_of(text@).braced,
        shape.1 == shape_of(text@).listed,
{
    let mut depth: usize = 0;
    let mut braced = false;
    let mut listed = false;
    let mut i: usize = 0;
    while i < text.len()
        invariant
            0 <= i <= text@.len(),
            depth <= i,
            depth == shape_of(text@.take(i as int)).depth,
            braced == shape_of(text@.take(i as int)).braced,
            listed == shape_of(text@.take(i as int)).listed,
        decreases text@.len() - i,
    {
        assert(text@.take(i + 1).drop_last() =~= text@.take(i as int));
        let c = text[i];
        if c == '{' {
            if depth == 0 {
                braced = true;
                listed = true;
            }
            depth += 1;
        } else if c == '}' {
            if depth > 0 {
                depth -= 1;
            }
        } else if c == '=' && depth == 1 {
            listed = false;
        }
        i += 1;
    }
    assert(text@.take(text@.len() as int) =~= text@);
    (braced, listed)
}

/// Splits the text of a list into its trimmed items.
fn split_list(text: &[char]) -> (items: Vec<Vec<char>>)
    ensures
        items@.len() == list_items(text@).len(),
        forall|j: int| 0 <= j < items@.len() ==> (#[trigger] items@[j])@ == list_items(text@)[j],
{
    let n = text.len();
    let start: usize = if n > 0 {
        1
    } else {
        0
    };
    let ghost body = after_first(text@);
    let mut depth: usize = 0;
    let mut current: Vec<char> = Vec::new();
    let mut items: Vec<Vec<char>> = Vec::new();
    let mut closed = false;
    let mut i: usize = start;
    while i < n && !closed
        invariant
            start <= i <= n,
            n == text@.len(),
            body.len() == n - start,
            forall|j: int| 0 <= j < body.len() ==> body[j] == text@[j + start],
            depth <= i - start,
            depth == list_scan(body.take(i - start)).depth,
            current@ == list_scan(body.take(i - start)).current,
            closed == list_scan(body.take(i - start)).closed,
            items@.len() == list_scan(body.take(i - start)).items.len(),
            forall|j: int|
                0 <= j < items@.len() ==> (#[trigger] items@[j])@ == list_scan(
                    body.take(i - start),
                ).items[j],
        decreases n - i,
    {
        assert(body.take(i - start + 1).drop_last() =~= body.take(i - start));
        let c = text[i];
        if c == '{' {
            depth += 1;
            current.push(c);
        } else if c == '}' && depth == 0 {
            items.push(trim(current.as_slice()));
            closed = true;
        } else if c == '}' {
            depth -= 1;
            current.push(c);
        } else if c == ',' && depth == 0 {
            items.push(trim(current.as_slice()));
            current = Vec::new();
        } else {
            current.push(c);
        }
        i += 1;
    }
    proof {
        if closed {
            lemma_list_closed_stays(body, i - start);
        } else {
            assert(body.take(i - start) =~= body);
        }
    }
    items
}

/// Splits the text of a map into the keys and the raw values of its entries.
fn split_map(text: &[char]) -> (entries: Vec<(Vec<char>, Vec<char>)>)
    ensures
        entries@.len() == map_entries(text@).len(),
        forall|j: int|
            0 <= j < entries@.len() ==> (#[trigger] entries@[j]).0@ == map_entries(text@)[j].0
                && entries@[j].1@ == map_entries(text@)[j].1,
{
    let n = text.len();
    let start: usize = if n > 0 && text[0] == '{' {
        1
    } else {
        0
    };
    let ghost body = map_body(text@);
    let mut depth: usize = 0;
    let mut key: Vec<char> = Vec::new();
    let mut current: Vec<char> = Vec::new();
    let mut entries: Vec<(Vec<char>, Vec<char>)> = Vec::new();
    let mut closed = false;
    let mut i: usize = start;
    while i < n && !closed
        invariant
            start <= i <= n,
            n == text@.len(),
            body.len() == n - start,
            forall|j: int| 0 <= j < body.len() ==> body[j] == text@[j + start],
            depth <= i - start,
            depth == map_scan(body.take(i - start)).depth,
            key@ == map_scan(body.take(i - start)).key,
            current@ == map_scan(body.take(i - start)).current,
            closed == map_scan(body.take(i - start)).closed,
            entries@.len() == map_scan(body.take(i - start)).entries.len(),
            forall|j: int|
                0 <= j < entries@.len() ==> (#[trigger] entries@[j]).0@ == map_scan(
                    body.take(i - start),
                ).entries[j].0 && entries@[j].1@ == map_scan(body.take(i - start)).entries[j].1,
        decreases n - i,
    {
        assert(body.take(i - start + 1).drop_last() =~= body.take(i - start));
        let c = text[i];
        if c == '{' {
            depth += 1;
            current.push(c);
        } else if c == '}' && depth == 0 {
            closed = true;
        } else if c == '}' {
            depth -= 1;
            current.push(c);
        } else if c == '=' && depth == 0 {
            key = trim(current.as_slice());
            current = Vec::new();
        } else if c == '\n' && depth == 0 && key.len() > 0 {
            entries.push((key, current));
            key = Vec::new();
            current = Vec::new();
        } else {
            current.push(c);
        }
        i += 1;
    }
    proof {
        if closed {
            lemma_map_closed_stays(body, i - start);
        } else {
            assert(body.take(i - start) =~= body);
        }
    }
    if key.len() > 0 {
        entries.push((key, current));
    }
    entries
}

/// Reads `text` as a value.
pub fn parse_value(text: &[char]) -> (value: ArgumentValue)
    ensures
        value@ == value_of(text@),
    decreases text@.len(), 1int,
{
    let (braced, listed) = scan_shape(text);
    if listed {
        parse_list(text)
    } else if braced {
        parse_map(text)
    } else {
        ArgumentValue::Scalar(parse_scalar(text))
    }
}

/// Reads `text` as a list. Its first character is taken for the opening brace.
pub fn parse_list(text: &[char]) -> (value: ArgumentValue)
    ensures
        value@ == list_of(text@),
    decreases text@.len(), 0int,
{
    let items = split_list(text);
    proof {
        lemma_items_shorter(text@);
    }
    let mut values: Vec<ArgumentValue> = Vec::new();
    let mut i: usize = 0;
    while i < items.len()
        invariant
            0 <= i <= items@.len(),
            items@.len() == list_items(text@).len(),
            forall|j: int|
                0 <= j < items@.len() ==> (#[trigger] items@[j])@ == list_items(text@)[j],
            forall|j: int|
                0 <= j < list_items(text@).len() ==> (#[trigger] list_items(text@)[j]).len()
                    < text@.len(),
            values@.len() == i,
            forall|j: int| 0 <= j < i ==> (#[trigger] values@[j])@ == value_of(list_items(text@)[j]),
        decreases items@.len() - i,
    {
        let value = parse_value(items[i].as_slice());
        values.push(value);
        i += 1;
    }
    let value = ArgumentValue::List(values);
    proof {
        assert(value@ == list_of(text@)) by {
            assert(value@->List_0 =~= list_of(text@)->List_0);
        }
    }
    value
}

/// Reads `text` as a map. A brace that opens `text` is passed over.
pub fn parse_map(text: &[char]) -> (value: ArgumentValue)
    ensures
        value@ == map_of(text@),
    decreases text@.len(), 0int,
{
    let raw = split_map(text);
    proof {
        lemma_entries_shorter(text@);
    }
    let mut entries: Vec<(String, ArgumentValue)> = Vec::new();
    let mut i: usize = 0;
    while i < raw.len()
        invariant
            0 <= i <= raw@.len(),
            raw@.len() == map_entries(text@).len(),
            forall|j: int|
                0 <= j < raw@.len() ==> (#[trigger] raw@[j]).0@ == map_entries(text@)[j].0
                    && raw@[j].1@ == map_entries(text@)[j].1,
            forall|j: int|
                0 <= j < map_entries(text@).len() ==> (#[trigger] map_entries(text@)[j]).1.len()
                    < text@.len(),
            entries@.len() == i,
            forall|j: int|
                0 <= j < i ==> (#[trigger] entries@[j]).0@ == map_entries(text@)[j].0
                    && entries@[j].1@ == value_of(map_entries(text@)[j].1),
        decreases raw@.len() - i,
    {
        let key = from_chars(raw[i].0.as_slice());
        let value = parse_value(raw[i].1.as_slice());
        entries.push((key, value));
        i += 1;
    }
    let value = ArgumentValue::Mapping(entries);
    proof {
        assert(value@ == map_of(text@)) by {
            assert(value@->Mapping_0 =~= map_of(text@)->Mapping_0);
        }
    }
    value
}

/// Parses the arguments of an asset header: a map without braces around it.
pub fn parse_arguments(arguments: String) -> (value: ArgumentValue)
    ensures
        value@ == map_of(arguments@),
{
    let chars = to_chars(arguments.as_str());
    parse_map(chars.as_slice())
}

/// Whatever the text, its arguments are a map: parsing never fails.
pub proof fn lemma_arguments_are_a_map(text: Seq<char>)
    ensures
        map_of(text) is Mapping,
        map_of(text)->Mapping_0.len() == map_entries(text).len(),
        forall|i: int|
            0 <= i < map_entries(text).len() ==> (#[trigger] map_of(text)->Mapping_0[i]).0
                == map_entries(text)[i].0 && map_of(text)->Mapping_0[i].1 == value_of(
                map_entries(text)[i].1,
            ),
{
    lemma_entries_shorter(text);
}

/// The index of the last of the first `end` entries that has the key `key`;
/// -1 if none has it.
pub open spec fn last_index_of(
    entries: Seq<(String, ArgumentValue)>,
    key: Seq<char>,
    end: int,
) -> int
    decreases end,
{
    if end <= 0 {
        -1
    } else if entries[end - 1].0@ == key {
        end - 1
    } else {
        last_index_of(entries, key, end - 1)
    }
}

/// The value that a map gives for `key`: that of the last entry with the
/// key. A value that is no map gives none.
pub open spec fn lookup(value: ArgumentValue, key: Seq<char>) -> Option<ArgumentValue> {
    match value {
        ArgumentValue::Mapping(entries) => {
            let index = last_index_of(entries@, key, entries@.len() as int);
            if index >= 0 {
                Some(entries@[index].1)
            } else {
                None
            }
        },
        _ => None,
    }
}

impl ArgumentValue {
    /// Looks `key` up in a map. Where the key occurs more than once, the last
    /// entry counts.
    pub fn get(&self, key: &str) -> (found: Option<&ArgumentValue>)
        ensures
            found is Some <==> lookup(*self, key@) is Some,
            found is Some ==> *found->0 == lookup(*self, key@)->0,
    {
        match self {
            ArgumentValue::Mapping(entries) => {
                let mut end: usize = entries.len();
                while end > 0
                    invariant
                        0 <= end <= entries@.len(),
                        *self == ArgumentValue::Mapping(*entries),
                        last_index_of(entries@, key@, entries@.len() as int) == last_index_of(
                            entries@,
                            key@,
                            end as int,
                        ),
                    decreases end,
                {
                    if same_text(entries[end - 1].0.as_str(), key) {
                        return Some(&entries[end - 1].1);
                    }
                    end -= 1;
                }
                None
            },
            _ => None,
        }
    }
}

} // verus!
