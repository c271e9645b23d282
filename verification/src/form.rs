//! Reading a settings page back into the fields that its form would send.
//!
//! Two elements count: `<input ...>` with a `type` and a `name`, and
//! `<textarea ...>` with a `name`, up to its `</textarea>`. A checkbox or a
//! radio button is sent only where it is checked; every other field is always
//! sent. Values are decoded from their HTML entities.

use vstd::prelude::*;
use crate::markup::{
    attribute_value, attributes_of, has_attribute, has_name, parse_attributes, value_of,
    Attributes,
};
use crate::text::{
    chars_of, find, find_char, find_in, index_of, lemma_find, lemma_index_of, matches_at,
    occurs_at, same_text, slice_of, string_of,
};
use crate::textmap::{lemma_position_from, lemma_upsert, lookup, upsert, Pairs, TextMap};

verus! {

/// The fields of a form, by name, each with the value it holds now.
pub type FormFieldMap = TextMap;

/// One form element as the page spells it, its value not yet decoded.
#[derive(Debug, PartialEq, Eq)]
pub enum Element {
    /// An `<input>` with its `type`, its `name`, its `value` where it has
    /// one, and whether it carries `checked`.
    Input { kind: String, name: String, value: Option<String>, checked: bool },
    /// A `<textarea>` with its `name` and the text between its tags.
    Textarea { name: String, body: String },
}

/// What an `Element` stands for.
pub enum ElementView {
    Input { kind: Seq<char>, name: Seq<char>, value: Option<Seq<char>>, checked: bool },
    Textarea { name: Seq<char>, body: Seq<char> },
}

impl View for Element {
    type V = ElementView;

    open spec fn view(&self) -> ElementView {
        match self {
            Element::Input { kind, name, value, checked } => ElementView::Input {
                kind: kind@,
                name: name@,
                value: match value {
                    Some(v) => Some(v@),
                    None => None,
                },
                checked: *checked,
            },
            Element::Textarea { name, body } => ElementView::Textarea { name: name@, body: body@ },
        }
    }
}

/// A field whose value could not be decoded from its HTML entities.
#[derive(Debug, PartialEq, Eq)]
pub struct BadEntity {
    /// The name of the field.
    pub field: String,
}

/// What a list of elements stands for, one by one.
pub open spec fn views(elements: Seq<Element>) -> Seq<ElementView> {
    elements.map_values(|e: Element| e@)
}

/// How an `<input>` tag opens.
pub open spec fn input_open() -> Seq<char> {
    "<input"@
}

/// How a `<textarea>` tag opens.
pub open spec fn textarea_open() -> Seq<char> {
    "<textarea"@
}

/// The tag that ends a `<textarea>`.
pub open spec fn textarea_close() -> Seq<char> {
    "</textarea>"@
}

/// The input element that a tag with these attributes is: one with a `type`
/// and a `name`, neither empty.
pub open spec fn input_of(attrs: Attributes) -> Option<ElementView> {
    match (attribute_value(attrs, "type"@), attribute_value(attrs, "name"@)) {
        (Some(kind), Some(name)) => if kind.len() > 0 && name.len() > 0 {
            Some(
                ElementView::Input {
                    kind,
                    name,
                    value: attribute_value(attrs, "value"@),
                    checked: has_attribute(attrs, "checked"@),
                },
            )
        } else {
            None
        },
        _ => None,
    }
}

/// The textarea whose opening tag holds its attributes from `start` to `end`,
/// and the index behind its closing tag: it has a `name` that is not empty,
/// its opening tag ends in `>`, and a closing tag follows.
pub open spec fn textarea_of(s: Seq<char>, start: int, end: int) -> Option<(ElementView, int)> {
    match (
        attribute_value(attributes_of(s.subrange(start, end)), "name"@),
        find(s, textarea_close(), end + 1),
    ) {
        (Some(name), Some(close)) => if name.len() > 0 {
            Some(
                (
                    ElementView::Textarea { name, body: s.subrange(end + 1, close) },
                    close + textarea_close().len(),
                ),
            )
        } else {
            None
        },
        _ => None,
    }
}

/// The form elements of a page from index `i` on, in the order of the page.
/// A tag's attributes run from behind its opening word to the next `>`.
pub open spec fn elements_from(s: Seq<char>, i: int) -> Seq<ElementView>
    decreases s.len() - i,
{
    if i < 0 || i >= s.len() {
        Seq::empty()
    } else if occurs_at(s, input_open(), i) {
        let start = i + input_open().len();
        let end = index_of(s, '>', start);
        proof {
            reveal_strlit("<input");
            lemma_index_of(s, '>', start);
        }
        match input_of(attributes_of(s.subrange(start, end))) {
            Some(element) => seq![element] + elements_from(s, end),
            None => elements_from(s, end),
        }
    } else if occurs_at(s, textarea_open(), i) {
        let start = i + textarea_open().len();
        let end = index_of(s, '>', start);
        proof {
            reveal_strlit("<textarea");
            reveal_strlit("</textarea>");
            lemma_index_of(s, '>', start);
            lemma_find(s, textarea_close(), end + 1);
        }
        match textarea_of(s, start, end) {
            Some((element, next)) => seq![element] + elements_from(s, next),
            None => elements_from(s, i + 1),
        }
    } else {
        elements_from(s, i + 1)
    }
}

/// The form elements of a page.
pub open spec fn elements_of(s: Seq<char>) -> Seq<ElementView> {
    elements_from(s, 0)
}

/// Whether a `type` is one that is sent only where it is checked.
pub open spec fn is_toggle(kind: Seq<char>) -> bool {
    kind == "checkbox"@ || kind == "radio"@
}

/// The name and the undecoded value that an element sends; none for a
/// checkbox or radio button that is not checked. An input without a `value`
/// sends the empty text.
pub open spec fn field_of(element: ElementView) -> Option<(Seq<char>, Seq<char>)> {
    match element {
        ElementView::Input { kind, name, value, checked } => if is_toggle(kind) && !checked {
            None
        } else {
            Some(
                (
                    name,
                    match value {
                        Some(v) => v,
                        None => Seq::empty(),
                    },
                ),
            )
        },
        ElementView::Textarea { name, body } => Some((name, body)),
    }
}

/// What `htmlescape::decode_html` makes of a text: the text with every HTML
/// entity replaced by the character it names, or none where an entity is
/// malformed or unknown.
pub uninterp spec fn html_decoded(text: Seq<char>) -> Option<Seq<char>>;

/// The fields after one more element: what the element sends is decoded and
/// bound to its name. A value that cannot be decoded fails with the name.
pub open spec fn fields_after(fields: Pairs, element: ElementView) -> Result<Pairs, Seq<char>> {
    match field_of(element) {
        None => Ok(fields),
        Some((name, raw)) => match html_decoded(raw) {
            Some(value) => Ok(upsert(fields, name, value)),
            None => Err(name),
        },
    }
}

/// The fields that a list of elements sends, the last of a name winning; or
/// the name of the first field whose value cannot be decoded.
pub open spec fn collected(elements: Seq<ElementView>) -> Result<Pairs, Seq<char>>
    decreases elements.len(),
{
    if elements.len() == 0 {
        Ok(Seq::empty())
    } else {
        match collected(elements.drop_last()) {
            Ok(fields) => fields_after(fields, elements.last()),
            Err(name) => Err(name),
        }
    }
}

/// The fields that a page's form sends as the page stands.
pub open spec fn scraped(page: Seq<char>) -> Result<Pairs, Seq<char>> {
    collected(elements_of(page))
}

/// What reading a page may give: the fields that its form sends, or the
/// field on which decoding fails.
pub open spec fn is_scrape_of(page: Seq<char>, result: Result<FormFieldMap, BadEntity>) -> bool {
    match result {
        Ok(fields) => scraped(page) == Ok::<Pairs, Seq<char>>(fields@),
        Err(e) => scraped(page) == Err::<Pairs, Seq<char>>(e.field@),
    }
}

/// Reading the same page twice gives the same: both times the same fields
/// with the same values in the same order, or both times a failure on the
/// same field.
pub proof fn lemma_scrape_repeats(
    page: Seq<char>,
    first: Result<FormFieldMap, BadEntity>,
    second: Result<FormFieldMap, BadEntity>,
)
    requires
        is_scrape_of(page, first),
        is_scrape_of(page, second),
    ensures
        match (first, second) {
            (Ok(a), Ok(b)) => a@ == b@,
            (Err(a), Err(b)) => a.field@ == b.field@,
            _ => false,
        },
{
}

/// A checkbox or radio button without `checked` leaves the fields as they
/// are.
pub proof fn lemma_unchecked_toggle_sends_nothing(
    fields: Pairs,
    kind: Seq<char>,
    name: Seq<char>,
    value: Option<Seq<char>>,
)
    requires
        is_toggle(kind),
    ensures
        fields_after(fields, ElementView::Input { kind, name, value, checked: false }) == Ok::<
            Pairs,
            Seq<char>,
        >(fields),
{
}

/// A checked checkbox or radio button is sent under its name, with the value
/// it declares, or with the empty text where it declares none.
pub proof fn lemma_checked_toggle_is_sent(
    fields: Pairs,
    kind: Seq<char>,
    name: Seq<char>,
    value: Option<Seq<char>>,
    decoded: Seq<char>,
)
    requires
        html_decoded(
            match value {
                Some(v) => v,
                None => Seq::empty(),
            },
        ) == Some(decoded),
    ensures
        fields_after(fields, ElementView::Input { kind, name, value, checked: true }) == Ok::<
            Pairs,
            Seq<char>,
        >(upsert(fields, name, decoded)),
        lookup(upsert(fields, name, decoded), name) == Some(decoded),
{
    lemma_upsert(fields, name, decoded);
}

/// A name that no element sends is not among the fields: so a checkbox that
/// is not checked never shows, unless another element sends its name.
pub proof fn lemma_unsent_name_is_absent(elements: Seq<ElementView>, name: Seq<char>)
    requires
        forall|i: int|
            0 <= i < elements.len() ==> (#[trigger] field_of(elements[i]) matches Some(pair)
                ==> pair.0 != name),
    ensures
        collected(elements) matches Ok(fields) ==> lookup(fields, name) is None,
    decreases elements.len(),
{
    if elements.len() > 0 {
        let front = elements.drop_last();
        assert forall|i: int| 0 <= i < front.len() implies (#[trigger] field_of(front[i])
            matches Some(pair) ==> pair.0 != name) by {
            assert(front[i] == elements[i]);
        }
        lemma_unsent_name_is_absent(front, name);
        if let Ok(fields) = collected(front) {
            if let Some((sent, raw)) = field_of(elements.last()) {
                if let Some(value) = html_decoded(raw) {
                    lemma_upsert(fields, sent, value);
                }
            }
        }
    } else {
        lemma_position_from(Pairs::empty(), name, 0);
    }
}

/// `htmlescape::decode_html`: the decoded text, or none where the crate
/// reports an error. The result depends on the text alone.
#[verifier::external_body]
fn decode_entities(s: &str) -> (r: Option<String>)
    ensures
        match r {
            Some(text) => html_decoded(s@) == Some(text@),
            None => html_decoded(s@) is None,
        },
{
    match htmlescape::decode_html(s) {
        Ok(text) => Some(text),
        Err(_) => None,
    }
}

/// The input element that a tag with these attributes is.
fn input_from(attrs: &Vec<(String, Option<String>)>) -> (r: Option<Element>)
    ensures
        match r {
            Some(element) => input_of(attrs.deep_view()) == Some(element@),
            None => input_of(attrs.deep_view()) is None,
        },
{
    match (value_of(attrs, "type"), value_of(attrs, "name")) {
        (Some(kind), Some(name)) => {
            if kind.as_str().is_empty() || name.as_str().is_empty() {
                None
            } else {
                let value = match value_of(attrs, "value") {
                    Some(v) => Some(v.clone()),
                    None => None,
                };
                let checked = has_name(attrs, "checked");
                Some(Element::Input { kind: kind.clone(), name: name.clone(), value, checked })
            }
        },
        _ => None,
    }
}

/// The textarea whose opening tag holds its attributes from `start` to `end`,
/// and the index behind its closing tag.
fn textarea_from(s: &Vec<char>, start: usize, end: usize, close: &Vec<char>) -> (r: Option<
    (Element, usize),
>)
    requires
        start <= end <= s.len(),
        close@ == textarea_close(),
    ensures
        match r {
            Some((element, next)) => textarea_of(s@, start as int, end as int) == Some(
                (element@, next as int),
            ) && end < next <= s.len(),
            None => textarea_of(s@, start as int, end as int) is None,
        },
{
    if end >= s.len() {
        proof {
            reveal_strlit("</textarea>");
        }
        return None;
    }
    let body = slice_of(s, start, end);
    let attrs = parse_attributes(&body);
    match (value_of(&attrs, "name"), find_in(s, close, end + 1)) {
        (Some(name), Some(at)) => {
            proof {
                lemma_find(s@, close@, end + 1);
            }
            if name.as_str().is_empty() {
                None
            } else {
                let element = Element::Textarea {
                    name: name.clone(),
                    body: string_of(s, end + 1, at),
                };
                Some((element, at + close.len()))
            }
        },
        _ => None,
    }
}

/// The form elements of a page, in the order of the page.
pub fn scan_elements(page: &str) -> (r: Vec<Element>)
    ensures
        views(r@) == elements_of(page@),
{
    let s = chars_of(page);
    let input = chars_of("<input");
    let textarea = chars_of("<textarea");
    let close = chars_of("</textarea>");
    proof {
        reveal_strlit("<input");
        reveal_strlit("<textarea");
    }
    let n: usize = s.len();
    let mut out: Vec<Element> = Vec::new();
    let mut i: usize = 0;
    assert(views(out@) =~= Seq::<ElementView>::empty());
    while i < n
        invariant
            n == s.len(),
            i <= n,
            input@ == input_open(),
            input@.len() == 6,
            textarea@ == textarea_open(),
            textarea@.len() == 9,
            close@ == textarea_close(),
            views(out@) + elements_from(s@, i as int) == elements_of(s@),
        decreases n - i,
    {
        let ghost before = views(out@);
        if matches_at(&s, &input, i) {
            let start: usize = i + input.len();
            let end: usize = find_char(&s, '>', start);
            let body = slice_of(&s, start, end);
            let attrs = parse_attributes(&body);
            match input_from(&attrs) {
                Some(element) => {
                    let ghost item = element@;
                    out.push(element);
                    proof {
                        assert(views(out@) =~= before.push(item));
                        assert(before.push(item) + elements_from(s@, end as int) =~= before + (
                        seq![item] + elements_from(s@, end as int)));
                    }
                },
                None => {},
            }
            i = end;
        } else if matches_at(&s, &textarea, i) {
            let start: usize = i + textarea.len();
            let end: usize = find_char(&s, '>', start);
            match textarea_from(&s, start, end, &close) {
                Some((element, next)) => {
                    let ghost item = element@;
                    out.push(element);
                    proof {
                        assert(views(out@) =~= before.push(item));
                        assert(before.push(item) + elements_from(s@, next as int) =~= before + (
                        seq![item] + elements_from(s@, next as int)));
                    }
                    i = next;
                },
                None => {
                    i = i + 1;
                },
            }
        } else {
            i = i + 1;
        }
    }
    assert(views(out@) + Seq::<ElementView>::empty() =~= views(out@));
    out
}

/// The name and the undecoded value that an element sends; none for a
/// checkbox or radio button that is not checked.
pub fn submitted_field(element: &Element) -> (r: Option<(String, String)>)
    ensures
        match r {
            Some((name, raw)) => field_of(element@) == Some((name@, raw@)),
            None => field_of(element@) is None,
        },
{
    match element {
        Element::Input { kind, name, value, checked } => {
            let toggle = same_text(kind.as_str(), "checkbox") || same_text(kind.as_str(), "radio");
            if toggle && !*checked {
                None
            } else {
                let raw = match value {
                    Some(v) => v.clone(),
                    None => String::new(),
                };
                Some((name.clone(), raw))
            }
        },
        Element::Textarea { name, body } => Some((name.clone(), body.clone())),
    }
}

/// Takes what one element sends into the fields.
pub fn record_element(fields: &mut FormFieldMap, element: &Element) -> (r: Result<(), BadEntity>)
    ensures
        match r {
            Ok(_) => fields_after(old(fields)@, element@) == Ok::<Pairs, Seq<char>>(
                final(fields)@,
            ),
            Err(e) => fields_after(old(fields)@, element@) == Err::<Pairs, Seq<char>>(e.field@)
                && final(fields)@ == old(fields)@,
        },
{
    match submitted_field(element) {
        None => Ok(()),
        Some((name, raw)) => match decode_entities(raw.as_str()) {
            Some(value) => {
                fields.upsert(name, value);
                Ok(())
            },
            None => Err(BadEntity { field: name }),
        },
    }
}

/// The fields that a list of elements sends.
pub fn collect_fields(elements: &Vec<Element>) -> (r: Result<FormFieldMap, BadEntity>)
    ensures
        match r {
            Ok(fields) => collected(views(elements@)) == Ok::<Pairs, Seq<char>>(fields@),
            Err(e) => collected(views(elements@)) == Err::<Pairs, Seq<char>>(e.field@),
        },
{
    let ghost all = views(elements@);
    let mut fields = FormFieldMap::new();
    let mut i: usize = 0;
    while i < elements.len()
        invariant
            i <= elements.len(),
            all == views(elements@),
            collected(all.take(i as int)) == Ok::<Pairs, Seq<char>>(fields@),
        decreases elements.len() - i,
    {
        proof {
            assert(all.take(i + 1).drop_last() =~= all.take(i as int));
            assert(all.take(i + 1).last() == elements@[i as int]@);
        }
        match record_element(&mut fields, &elements[i]) {
            Ok(_) => {},
            Err(e) => {
                proof {
                    lemma_collected_fails_on(all, i + 1);
                }
                return Err(e);
            },
        }
        i = i + 1;
    }
    assert(all.take(i as int) =~= all);
    Ok(fields)
}

/// Once a front part of the elements has failed, the whole list fails with
/// the same name.
proof fn lemma_collected_fails_on(elements: Seq<ElementView>, k: int)
    requires
        0 <= k <= elements.len(),
        collected(elements.take(k)) is Err,
    ensures
        collected(elements) == collected(elements.take(k)),
    decreases elements.len() - k,
{
    if k < elements.len() {
        assert(elements.take(k + 1).drop_last() =~= elements.take(k));
        lemma_collected_fails_on(elements, k + 1);
    } else {
        assert(elements.take(k) =~= elements);
    }
}

/// The fields that a page's form sends as the page stands. The same page
/// always gives the same fields.
pub fn scrape(page: &str) -> (r: Result<FormFieldMap, BadEntity>)
    ensures
        is_scrape_of(page@, r),
{
    let elements = scan_elements(page);
    collect_fields(&elements)
}

} // verus!
