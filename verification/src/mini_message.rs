use vstd::prelude::*;
use vstd::utf8::encode_utf8;
use crate::component_view::{ComponentView, components_view, lemma_components_view, opt_string_view};
use crate::text_component::{Component, str_is};
use quick_xml::events::Event;
use quick_xml::Reader;

verus! {

broadcast use crate::component_view::lemma_view_fields;

#[verifier::external_type_specification]
#[verifier::external_body]
#[verifier::reject_recursive_types(R)]
pub struct ExXmlReader<R>(Reader<R>);

#[verifier::external_type_specification]
#[verifier::external_body]
pub struct ExXmlError(quick_xml::Error);

#[verifier::external_type_specification]
#[verifier::external_body]
pub struct ExXmlEncodingError(quick_xml::encoding::EncodingError);

/// Why a MiniMessage string could not be read.
#[derive(Debug)]
pub enum MiniMessageError {
    /// The markup is not well-formed XML.
    QuickXml(quick_xml::Error),
    /// Text could not be decoded. The string reader used here hands out text
    /// already decoded, so this does not occur when reading a `&str`.
    Encoding(quick_xml::encoding::EncodingError),
}

/// One markup event, as the XML reader reports it.
#[derive(Debug, PartialEq)]
pub enum XmlEvent {
    /// An opening tag, by name.
    Start(String),
    /// A closing tag, by name.
    End(String),
    /// A self-closing tag, by name.
    Empty(String),
    /// Character data between tags, as written.
    Text(String),
    /// Any other event (comments, declarations, references...).
    Other,
}

/// The mathematical value of an `XmlEvent`.
pub enum XmlEventView {
    Start(Seq<char>),
    End(Seq<char>),
    Empty(Seq<char>),
    Text(Seq<char>),
    Other,
}

impl View for XmlEvent {
    type V = XmlEventView;

    open spec fn view(&self) -> XmlEventView {
        match self {
            XmlEvent::Start(n) => XmlEventView::Start(n@),
            XmlEvent::End(n) => XmlEventView::End(n@),
            XmlEvent::Empty(n) => XmlEventView::Empty(n@),
            XmlEvent::Text(t) => XmlEventView::Text(t@),
            XmlEvent::Other => XmlEventView::Other,
        }
    }
}

/// The style in effect at some point of a MiniMessage string.
pub struct Style {
    pub color: Option<String>,
    pub bold: bool,
    pub italic: bool,
    pub underlined: bool,
    pub strikethrough: bool,
    pub obfuscated: bool,
}

/// The mathematical value of a `Style`.
pub struct StyleView {
    pub color: Option<Seq<char>>,
    pub bold: bool,
    pub italic: bool,
    pub underlined: bool,
    pub strikethrough: bool,
    pub obfuscated: bool,
}

impl View for Style {
    type V = StyleView;

    open spec fn view(&self) -> StyleView {
        StyleView {
            color: opt_string_view(self.color),
            bold: self.bold,
            italic: self.italic,
            underlined: self.underlined,
            strikethrough: self.strikethrough,
            obfuscated: self.obfuscated,
        }
    }
}

/// No color and no flag.
pub open spec fn default_style() -> StyleView {
    StyleView {
        color: None,
        bold: false,
        italic: false,
        underlined: false,
        strikethrough: false,
        obfuscated: false,
    }
}

/// Whether `tag` names one of the sixteen chat colors.
pub open spec fn spec_is_color_tag(tag: Seq<char>) -> bool {
    ||| tag == "black"@
    ||| tag == "dark_blue"@
    ||| tag == "dark_green"@
    ||| tag == "dark_aqua"@
    ||| tag == "dark_red"@
    ||| tag == "dark_purple"@
    ||| tag == "gold"@
    ||| tag == "gray"@
    ||| tag == "dark_gray"@
    ||| tag == "blue"@
    ||| tag == "green"@
    ||| tag == "aqua"@
    ||| tag == "red"@
    ||| tag == "light_purple"@
    ||| tag == "yellow"@
    ||| tag == "white"@
}

pub open spec fn spec_is_bold_tag(tag: Seq<char>) -> bool {
    tag == "bold"@ || tag == "b"@
}

pub open spec fn spec_is_italic_tag(tag: Seq<char>) -> bool {
    tag == "italic"@ || tag == "i"@ || tag == "em"@
}

pub open spec fn spec_is_underlined_tag(tag: Seq<char>) -> bool {
    tag == "underlined"@ || tag == "u"@
}

pub open spec fn spec_is_strikethrough_tag(tag: Seq<char>) -> bool {
    tag == "strikethrough"@ || tag == "st"@
}

pub open spec fn spec_is_obfuscated_tag(tag: Seq<char>) -> bool {
    tag == "obfuscated"@ || tag == "obf"@
}

/// Whether `tag` is a tag that changes the style: a color or a decoration.
pub open spec fn spec_is_styling_tag(tag: Seq<char>) -> bool {
    ||| spec_is_color_tag(tag)
    ||| spec_is_bold_tag(tag)
    ||| spec_is_italic_tag(tag)
    ||| spec_is_underlined_tag(tag)
    ||| spec_is_strikethrough_tag(tag)
    ||| spec_is_obfuscated_tag(tag)
}

/// The style `st` changed by the styling tag `tag`.
pub open spec fn apply_tag(st: StyleView, tag: Seq<char>) -> StyleView {
    if spec_is_color_tag(tag) {
        StyleView { color: Some(tag), ..st }
    } else if spec_is_bold_tag(tag) {
        StyleView { bold: true, ..st }
    } else if spec_is_italic_tag(tag) {
        StyleView { italic: true, ..st }
    } else if spec_is_underlined_tag(tag) {
        StyleView { underlined: true, ..st }
    } else if spec_is_strikethrough_tag(tag) {
        StyleView { strikethrough: true, ..st }
    } else if spec_is_obfuscated_tag(tag) {
        StyleView { obfuscated: true, ..st }
    } else {
        st
    }
}

/// A flat component holding `text` in the style `st`.
pub open spec fn styled(text: Seq<char>, st: StyleView) -> ComponentView {
    ComponentView {
        text: text,
        color: st.color,
        bold: st.bold,
        italic: st.italic,
        underlined: st.underlined,
        strikethrough: st.strikethrough,
        obfuscated: st.obfuscated,
        extra: Seq::empty(),
    }
}

/// What has been read so far: the stack of open styles (never empty, the
/// default style at the bottom) and the flat components produced.
pub struct ReadState {
    pub styles: Seq<StyleView>,
    pub parts: Seq<ComponentView>,
}

pub open spec fn initial_state() -> ReadState {
    ReadState { styles: seq![default_style()], parts: Seq::empty() }
}

/// The state after one more event: `newline` (opening or self-closing) adds a
/// line break in the current style; an opening styling tag pushes the current
/// style changed by it; a closing styling tag pops a style unless only the
/// bottom one is left; non-empty text adds a component in the current style;
/// everything else is ignored.
pub open spec fn step(st: ReadState, ev: XmlEventView) -> ReadState {
    let top = st.styles.last();
    match ev {
        XmlEventView::Start(n) => if n == "newline"@ {
            ReadState { parts: st.parts.push(styled(seq!['\n'], top)), ..st }
        } else if spec_is_styling_tag(n) {
            ReadState { styles: st.styles.push(apply_tag(top, n)), ..st }
        } else {
            st
        },
        XmlEventView::End(n) => if spec_is_styling_tag(n) && st.styles.len() > 1 {
            ReadState { styles: st.styles.drop_last(), ..st }
        } else {
            st
        },
        XmlEventView::Text(t) => if t.len() == 0 {
            st
        } else {
            ReadState { parts: st.parts.push(styled(t, top)), ..st }
        },
        XmlEventView::Empty(n) => if n == "newline"@ {
            ReadState { parts: st.parts.push(styled(seq!['\n'], top)), ..st }
        } else {
            st
        },
        XmlEventView::Other => st,
    }
}

/// The state after all of `evs`, from the initial state.
pub open spec fn run(evs: Seq<XmlEventView>) -> ReadState
    decreases evs.len(),
{
    if evs.len() == 0 {
        initial_state()
    } else {
        step(run(evs.drop_last()), evs.last())
    }
}

/// The component read from the flat components: the default component when
/// there are none, else an empty default root holding them as extra.
pub open spec fn assemble(parts: Seq<ComponentView>) -> ComponentView {
    let d = Component::spec_default();
    if parts.len() == 0 {
        d
    } else {
        ComponentView { extra: parts, ..d }
    }
}

/// The component that a sequence of markup events describes.
pub open spec fn spec_components_from_events(evs: Seq<XmlEventView>) -> ComponentView {
    assemble(run(evs).parts)
}

pub open spec fn styles_view(ss: Seq<Style>) -> Seq<StyleView> {
    ss.map_values(|s: Style| s@)
}

/// Whether `tag` is a color or decoration tag.
pub fn is_styling_tag(tag: &str) -> (r: bool)
    ensures
        r == spec_is_styling_tag(tag@),
{
    is_color_tag(tag) || str_is(tag, "bold") || str_is(tag, "b") || str_is(tag, "italic")
        || str_is(tag, "i") || str_is(tag, "em") || str_is(tag, "underlined") || str_is(tag, "u")
        || str_is(tag, "strikethrough") || str_is(tag, "st") || str_is(tag, "obfuscated")
        || str_is(tag, "obf")
}

/// Whether `tag` names a chat color.
fn is_color_tag(tag: &str) -> (r: bool)
    ensures
        r == spec_is_color_tag(tag@),
{
    str_is(tag, "black") || str_is(tag, "dark_blue") || str_is(tag, "dark_green")
        || str_is(tag, "dark_aqua") || str_is(tag, "dark_red") || str_is(tag, "dark_purple")
        || str_is(tag, "gold") || str_is(tag, "gray") || str_is(tag, "dark_gray")
        || str_is(tag, "blue") || str_is(tag, "green") || str_is(tag, "aqua") || str_is(tag, "red")
        || str_is(tag, "light_purple") || str_is(tag, "yellow") || str_is(tag, "white")
}

/// A copy of a style.
fn copy_style(s: &Style) -> (r: Style)
    ensures
        r@ == s@,
{
    Style {
        color: match &s.color {
            Some(c) => Some(c.clone()),
            None => None,
        },
        bold: s.bold,
        italic: s.italic,
        underlined: s.underlined,
        strikethrough: s.strikethrough,
        obfuscated: s.obfuscated,
    }
}

/// The style `base` changed by the styling tag `tag`.
fn style_with_tag(base: &Style, tag: &String) -> (r: Style)
    ensures
        r@ == apply_tag(base@, tag@),
{
    let mut st = copy_style(base);
    let t = tag.as_str();
    if is_color_tag(t) {
        st.color = Some(tag.clone());
    } else if str_is(t, "bold") || str_is(t, "b") {
        st.bold = true;
    } else if str_is(t, "italic") || str_is(t, "i") || str_is(t, "em") {
        st.italic = true;
    } else if str_is(t, "underlined") || str_is(t, "u") {
        st.underlined = true;
    } else if str_is(t, "strikethrough") || str_is(t, "st") {
        st.strikethrough = true;
    } else if str_is(t, "obfuscated") || str_is(t, "obf") {
        st.obfuscated = true;
    }
    st
}

/// A flat component holding `text` in the style `st`.
fn styled_component(text: String, st: &Style) -> (r: Component)
    ensures
        r@ == styled(text@, st@),
{
    let r = Component {
        text: text,
        color: match &st.color {
            Some(c) => Some(c.clone()),
            None => None,
        },
        bold: st.bold,
        italic: st.italic,
        underlined: st.underlined,
        strikethrough: st.strikethrough,
        obfuscated: st.obfuscated,
        extra: Vec::new(),
    };
    proof {
        assert(components_view(r.extra@) =~= Seq::empty());
        assert(r@ =~= styled(text@, st@));
    }
    r
}

/// Appends a component to the flat components.
fn push_part(parts: &mut Vec<Component>, c: Component)
    ensures
        components_view(final(parts)@) == components_view(old(parts)@).push(c@),
{
    parts.push(c);
    proof {
        assert(parts@.drop_last() =~= old(parts)@);
    }
}

/// Applies one markup event to the style stack and the flat components.
pub fn apply_event(styles: &mut Vec<Style>, parts: &mut Vec<Component>, ev: XmlEvent)
    requires
        old(styles).len() >= 1,
    ensures
        final(styles).len() >= 1,
        styles_view(final(styles)@) == step(
            ReadState { styles: styles_view(old(styles)@), parts: components_view(old(parts)@) },
            ev@,
        ).styles,
        components_view(final(parts)@) == step(
            ReadState { styles: styles_view(old(styles)@), parts: components_view(old(parts)@) },
            ev@,
        ).parts,
{
    let ghost old_styles = styles_view(styles@);
    let top_index = styles.len() - 1;
    proof {
        assert(old_styles.last() == styles@[top_index as int]@);
    }
    match ev {
        XmlEvent::Start(name) => {
            if str_is(name.as_str(), "newline") {
                proof {
                    reveal_strlit("\n");
                    assert("\n"@ =~= seq!['\n']);
                }
                let c = styled_component("\n".to_owned(), &styles[top_index]);
                push_part(parts, c);
            } else if is_styling_tag(name.as_str()) {
                let st = style_with_tag(&styles[top_index], &name);
                styles.push(st);
                proof {
                    assert(styles_view(styles@) =~= old_styles.push(apply_tag(old_styles.last(), name@)));
                }
            }
        },
        XmlEvent::End(name) => {
            if is_styling_tag(name.as_str()) && styles.len() > 1 {
                styles.pop();
                proof {
                    assert(styles_view(styles@) =~= old_styles.drop_last());
                }
            }
        },
        XmlEvent::Text(text) => {
            if !text.as_str().is_empty() {
                let c = styled_component(text, &styles[top_index]);
                push_part(parts, c);
            }
        },
        XmlEvent::Empty(name) => {
            if str_is(name.as_str(), "newline") {
                proof {
                    reveal_strlit("\n");
                    assert("\n"@ =~= seq!['\n']);
                }
                let c = styled_component("\n".to_owned(), &styles[top_index]);
                push_part(parts, c);
            }
        },
        XmlEvent::Other => {},
    }
}

/// The views of a sequence of events.
pub open spec fn events_view(evs: Seq<XmlEvent>) -> Seq<XmlEventView> {
    evs.map_values(|e: XmlEvent| e@)
}

/// A copy of an event.
fn copy_event(e: &XmlEvent) -> (r: XmlEvent)
    ensures
        r@ == e@,
{
    match e {
        XmlEvent::Start(n) => XmlEvent::Start(n.clone()),
        XmlEvent::End(n) => XmlEvent::End(n.clone()),
        XmlEvent::Empty(n) => XmlEvent::Empty(n.clone()),
        XmlEvent::Text(t) => XmlEvent::Text(t.clone()),
        XmlEvent::Other => XmlEvent::Other,
    }
}

/// The style stack holding only the default style.
fn initial_styles() -> (r: Vec<Style>)
    ensures
        r.len() == 1,
        styles_view(r@) == initial_state().styles,
{
    let mut r: Vec<Style> = Vec::new();
    r.push(Style {
        color: None,
        bold: false,
        italic: false,
        underlined: false,
        strikethrough: false,
        obfuscated: false,
    });
    proof {
        assert(styles_view(r@) =~= seq![default_style()]);
    }
    r
}

/// The component made of the flat components read.
fn assemble_parts(parts: Vec<Component>) -> (r: Component)
    ensures
        r@ == assemble(components_view(parts@)),
{
    proof {
        lemma_components_view(parts@);
    }
    let ghost pv = components_view(parts@);
    let empty = parts.len() == 0;
    let r = Component {
        text: String::new(),
        color: None,
        bold: false,
        italic: false,
        underlined: false,
        strikethrough: false,
        obfuscated: false,
        extra: if empty { Vec::new() } else { parts },
    };
    proof {
        assert(components_view(Seq::<Component>::empty()) =~= Seq::empty());
        assert(r@ =~= assemble(pv));
    }
    r
}

/// The component that the markup events `events` describe, read in order
/// from the default style.
pub fn components_from_events(events: &Vec<XmlEvent>) -> (r: Component)
    ensures
        r@ == spec_components_from_events(events_view(events@)),
{
    let ghost evs = events_view(events@);
    let mut styles = initial_styles();
    let mut parts: Vec<Component> = Vec::new();
    proof {
        assert(evs.take(0) =~= Seq::<XmlEventView>::empty());
        assert(components_view(parts@) =~= Seq::empty());
    }
    let n = events.len();
    let mut i: usize = 0;
    while i < n
        invariant
            n == events.len(),
            i <= n,
            evs == events_view(events@),
            styles.len() >= 1,
            styles_view(styles@) == run(evs.take(i as int)).styles,
            components_view(parts@) == run(evs.take(i as int)).parts,
        decreases n - i,
    {
        let ev = copy_event(&events[i]);
        apply_event(&mut styles, &mut parts, ev);
        proof {
            assert(evs.take(i as int + 1).drop_last() =~= evs.take(i as int));
            assert(evs.take(i as int + 1).last() == events@[i as int]@);
        }
        i = i + 1;
    }
    proof {
        assert(evs.take(n as int) =~= evs);
    }
    assemble_parts(parts)
}

/// What one read of the XML reader gives: an event, the end of the input,
/// or an error.
pub enum XmlRead {
    Event(XmlEventView),
    End,
    Failed,
}

/// The result of the `k`-th read (counting from 0) of a `quick_xml` reader
/// made with `Reader::from_str` over `markup`, with the check that closing
/// tags name the innermost open tag turned off.
pub uninterp spec fn spec_xml_read(markup: Seq<char>, k: nat) -> XmlRead;

/// Whether the first `n` reads over `markup` all gave events.
pub open spec fn reads_are_events(markup: Seq<char>, n: nat) -> bool {
    forall|j: nat| j < n ==> #[trigger] spec_xml_read(markup, j) is Event
}

/// The events of the first `n` reads over `markup`.
pub open spec fn events_upto(markup: Seq<char>, n: nat) -> Seq<XmlEventView> {
    Seq::new(n, |j: int| spec_xml_read(markup, j as nat)->Event_0)
}

/// The events the XML reader reports for `markup` before it reports the end,
/// or `None` when it reports an error first.
pub open spec fn spec_xml_events(markup: Seq<char>) -> Option<Seq<XmlEventView>> {
    if exists|n: nat| reads_are_events(markup, n) && #[trigger] spec_xml_read(markup, n) is End {
        let n = choose|n: nat| reads_are_events(markup, n) && #[trigger] spec_xml_read(markup, n) is End;
        Some(events_upto(markup, n))
    } else {
        None
    }
}

/// The markup given to the XML reader: the input inside a `<root>` element.
pub open spec fn spec_root_markup(input: Seq<char>) -> Seq<char> {
    "<root>"@ + input + "</root>"@
}

/// The component a MiniMessage string describes, or `None` when the XML
/// reader fails on it.
pub open spec fn spec_mini_message(input: Seq<char>) -> Option<ComponentView> {
    match spec_xml_events(spec_root_markup(input)) {
        Some(evs) => Some(spec_components_from_events(evs)),
        None => None,
    }
}

/// The view of the result of one read.
pub open spec fn read_view(r: Result<Option<XmlEvent>, quick_xml::Error>) -> XmlRead {
    match r {
        Ok(Some(e)) => XmlRead::Event(e@),
        Ok(None) => XmlRead::End,
        Err(_) => XmlRead::Failed,
    }
}

/// A `quick_xml` reader over some markup, with the number of reads made so far.
pub struct XmlEventReader<'a> {
    reader: Reader<&'a [u8]>,
    markup: Ghost<Seq<char>>,
    reads: Ghost<nat>,
    checks_end_names: Ghost<bool>,
}

impl<'a> XmlEventReader<'a> {
    /// The markup the reader reads.
    pub closed spec fn spec_markup(&self) -> Seq<char> {
        self.markup@
    }

    /// How many reads were made.
    pub closed spec fn spec_reads(&self) -> nat {
        self.reads@
    }

    /// Whether closing tags must name the innermost open tag.
    pub closed spec fn spec_checks_end_names(&self) -> bool {
        self.checks_end_names@
    }
}

/// `Reader::from_str`: an XML reader over the string slice, with no read
/// made yet and, as `quick_xml` sets by default, closing tags checked
/// against the open ones.
#[verifier::external_body]
fn xml_reader<'a>(input: &'a str) -> (r: XmlEventReader<'a>)
    ensures
        r.spec_markup() == input@,
        r.spec_reads() == 0,
        r.spec_checks_end_names(),
{
    XmlEventReader {
        reader: Reader::from_str(input),
        markup: Ghost(input@),
        reads: Ghost(0),
        checks_end_names: Ghost(true),
    }
}

/// `Reader::config_mut`, used to turn off the check that a closing tag names
/// the innermost open tag; nothing else of the reader changes.
#[verifier::external_body]
fn disable_end_name_check<'a>(r: &mut XmlEventReader<'a>)
    ensures
        final(r).spec_markup() == old(r).spec_markup(),
        final(r).spec_reads() == old(r).spec_reads(),
        !final(r).spec_checks_end_names(),
{
    r.reader.config_mut().check_end_names = false;
}

/// `Reader::read_event`: the next markup event, `None` at the end of the
/// input, or the reader's error, which is the next read of `spec_xml_read`.
/// Tag names are handed over as written and text as written (not
/// unescaped); comments, declarations, CDATA, processing instructions,
/// doctypes and entity references all become `XmlEvent::Other`. Every event
/// before the end takes at least one byte of the input (text events are
/// never empty, markup and references take their delimiters, and empty
/// elements are not expanded by default), so while all reads gave events,
/// no more events come than the markup has bytes.
#[verifier::external_body]
fn next_xml_event<'a>(r: &mut XmlEventReader<'a>) -> (res: Result<Option<XmlEvent>, quick_xml::Error>)
    requires
        !old(r).spec_checks_end_names(),
    ensures
        final(r).spec_markup() == old(r).spec_markup(),
        final(r).spec_reads() == old(r).spec_reads() + 1,
        !final(r).spec_checks_end_names(),
        read_view(res) == spec_xml_read(old(r).spec_markup(), old(r).spec_reads()),
        reads_are_events(old(r).spec_markup(), old(r).spec_reads())
            && old(r).spec_reads() >= encode_utf8(old(r).spec_markup()).len()
            ==> !(res matches Ok(Some(_))),
{
    match r.reader.read_event() {
        Ok(Event::Start(e)) => Ok(Some(XmlEvent::Start(e.name().as_ref().to_string()))),
        Ok(Event::End(e)) => Ok(Some(XmlEvent::End(e.name().as_ref().to_string()))),
        Ok(Event::Empty(e)) => Ok(Some(XmlEvent::Empty(e.name().as_ref().to_string()))),
        Ok(Event::Text(e)) => Ok(Some(XmlEvent::Text(e.into_inner().into_owned()))),
        Ok(Event::Eof) => Ok(None),
        Ok(_) => Ok(Some(XmlEvent::Other)),
        Err(e) => Err(e),
    }
}

/// The markup as the content of a `<root>` element, which is what the XML
/// reader is given.
pub fn root_markup(input: &str) -> (r: String)
    ensures
        r@ == spec_root_markup(input@),
{
    let mut wrapped = String::new();
    wrapped.append("<root>");
    wrapped.append(input);
    wrapped.append("</root>");
    wrapped
}

/// When the reads up to `n` gave events and read `n` gave the end, the
/// reader's events are those `n` events.
proof fn lemma_xml_events_end(markup: Seq<char>, n: nat)
    requires
        reads_are_events(markup, n),
        spec_xml_read(markup, n) is End,
    ensures
        spec_xml_events(markup) == Some(events_upto(markup, n)),
{
    let m = choose|m: nat| reads_are_events(markup, m) && #[trigger] spec_xml_read(markup, m) is End;
    assert(reads_are_events(markup, m) && spec_xml_read(markup, m) is End);
    if m < n {
        assert(spec_xml_read(markup, m) is Event);
    } else if n < m {
        assert(spec_xml_read(markup, n) is Event);
    }
}

/// When the reads up to `n` gave events and read `n` failed, the reader has
/// no event list.
proof fn lemma_xml_events_failed(markup: Seq<char>, n: nat)
    requires
        reads_are_events(markup, n),
        spec_xml_read(markup, n) is Failed,
    ensures
        spec_xml_events(markup) is None,
{
    if exists|m: nat| reads_are_events(markup, m) && #[trigger] spec_xml_read(markup, m) is End {
        let m = choose|m: nat| reads_are_events(markup, m) && #[trigger] spec_xml_read(markup, m) is End;
        if m < n {
            assert(spec_xml_read(markup, m) is Event);
        } else if n < m {
            assert(spec_xml_read(markup, n) is Event);
        }
    }
}

/// Parses a MiniMessage string (`<gold>Hi <b>there</b></gold><newline>...`)
/// into a component: the markup is read as XML inside a `<root>` element and
/// the events read are turned into flat styled components. It fails exactly
/// when the XML reader reports an error, with that error.
pub fn parse_mini_message(input: &str) -> (r: Result<Component, MiniMessageError>)
    ensures
        match r {
            Ok(c) => spec_mini_message(input@) == Some(c@),
            Err(e) => spec_mini_message(input@) is None && e is QuickXml,
        },
{
    let wrapped = root_markup(input);
    let ghost markup = wrapped@;
    let mut reader = xml_reader(wrapped.as_str());
    disable_end_name_check(&mut reader);
    let mut styles = initial_styles();
    let mut parts: Vec<Component> = Vec::new();
    proof {
        assert(components_view(parts@) =~= Seq::empty());
        assert(events_upto(markup, 0) =~= Seq::<XmlEventView>::empty());
    }
    loop
        invariant
            reader.spec_markup() == markup,
            markup == spec_root_markup(input@),
            !reader.spec_checks_end_names(),
            reads_are_events(markup, reader.spec_reads()),
            reader.spec_reads() <= encode_utf8(markup).len(),
            styles.len() >= 1,
            styles_view(styles@) == run(events_upto(markup, reader.spec_reads())).styles,
            components_view(parts@) == run(events_upto(markup, reader.spec_reads())).parts,
        decreases encode_utf8(markup).len() - reader.spec_reads(),
    {
        let ghost k = reader.spec_reads();
        let res = next_xml_event(&mut reader);
        match res {
            Err(e) => {
                proof {
                    lemma_xml_events_failed(markup, k);
                }
                return Err(MiniMessageError::QuickXml(e));
            },
            Ok(None) => {
                proof {
                    lemma_xml_events_end(markup, k);
                }
                let r = assemble_parts(parts);
                return Ok(r);
            },
            Ok(Some(ev)) => {
                proof {
                    let evs = events_upto(markup, k);
                    let next = events_upto(markup, k + 1);
                    assert(next.drop_last() =~= evs);
                    assert(next.last() == ev@);
                    assert forall|j: nat| j < k + 1 implies #[trigger] spec_xml_read(markup, j) is Event by {
                        if j < k {
                            assert(spec_xml_read(markup, j) is Event);
                        }
                    }
                }
                apply_event(&mut styles, &mut parts, ev);
            },
        }
    }
}

/// The long name of a decoration tag given by its short name (`b`, `i`,
/// `em`, `u`, `st`, `obf`); every other name is kept.
pub open spec fn canonical_tag(n: Seq<char>) -> Seq<char> {
    if n == "b"@ {
        "bold"@
    } else if n == "i"@ || n == "em"@ {
        "italic"@
    } else if n == "u"@ {
        "underlined"@
    } else if n == "st"@ {
        "strikethrough"@
    } else if n == "obf"@ {
        "obfuscated"@
    } else {
        n
    }
}

/// An event with the names of opening and closing tags in their long form.
pub open spec fn canonical_event(e: XmlEventView) -> XmlEventView {
    match e {
        XmlEventView::Start(n) => XmlEventView::Start(canonical_tag(n)),
        XmlEventView::End(n) => XmlEventView::End(canonical_tag(n)),
        _ => e,
    }
}

/// A short tag name and its long name style alike, and neither is `newline`.
proof fn lemma_canonical_tag(n: Seq<char>)
    ensures
        spec_is_styling_tag(canonical_tag(n)) == spec_is_styling_tag(n),
        spec_is_styling_tag(n) ==> forall|st: StyleView| #[trigger] apply_tag(st, canonical_tag(n)) == apply_tag(st, n),
        (canonical_tag(n) == "newline"@) == (n == "newline"@),
{
    reveal_strlit("black");
    assert("black"@.len() == 5);
    reveal_strlit("dark_blue");
    assert("dark_blue"@.len() == 9);
    reveal_strlit("dark_green");
    assert("dark_green"@.len() == 10);
    reveal_strlit("dark_aqua");
    assert("dark_aqua"@.len() == 9);
    reveal_strlit("dark_red");
    assert("dark_red"@.len() == 8);
    reveal_strlit("dark_purple");
    assert("dark_purple"@.len() == 11);
    reveal_strlit("gold");
    assert("gold"@.len() == 4);
    reveal_strlit("gray");
    assert("gray"@.len() == 4);
    reveal_strlit("dark_gray");
    assert("dark_gray"@.len() == 9);
    reveal_strlit("blue");
    assert("blue"@.len() == 4);
    reveal_strlit("green");
    assert("green"@.len() == 5);
    reveal_strlit("aqua");
    assert("aqua"@.len() == 4);
    reveal_strlit("red");
    assert("red"@.len() == 3);
    reveal_strlit("light_purple");
    assert("light_purple"@.len() == 12);
    reveal_strlit("yellow");
    assert("yellow"@.len() == 6);
    reveal_strlit("white");
    assert("white"@.len() == 5);
    reveal_strlit("bold");
    assert("bold"@.len() == 4);
    reveal_strlit("b");
    assert("b"@.len() == 1);
    reveal_strlit("italic");
    assert("italic"@.len() == 6);
    reveal_strlit("i");
    assert("i"@.len() == 1);
    reveal_strlit("em");
    assert("em"@.len() == 2);
    reveal_strlit("underlined");
    assert("underlined"@.len() == 10);
    reveal_strlit("u");
    assert("u"@.len() == 1);
    reveal_strlit("strikethrough");
    assert("strikethrough"@.len() == 13);
    reveal_strlit("st");
    assert("st"@.len() == 2);
    reveal_strlit("obfuscated");
    assert("obfuscated"@.len() == 10);
    reveal_strlit("obf");
    assert("obf"@.len() == 3);
    reveal_strlit("newline");
    assert("newline"@.len() == 7);
    assert("bold"@ =~= seq!['b', 'o', 'l', 'd']);
    assert("gold"@ =~= seq!['g', 'o', 'l', 'd']);
    assert("gray"@ =~= seq!['g', 'r', 'a', 'y']);
    assert("blue"@ =~= seq!['b', 'l', 'u', 'e']);
    assert("aqua"@ =~= seq!['a', 'q', 'u', 'a']);
    assert("italic"@ =~= seq!['i', 't', 'a', 'l', 'i', 'c']);
    assert("yellow"@ =~= seq!['y', 'e', 'l', 'l', 'o', 'w']);
    assert("underlined"@ =~= seq!['u', 'n', 'd', 'e', 'r', 'l', 'i', 'n', 'e', 'd']);
    assert("obfuscated"@ =~= seq!['o', 'b', 'f', 'u', 's', 'c', 'a', 't', 'e', 'd']);
    assert("dark_green"@ =~= seq!['d', 'a', 'r', 'k', '_', 'g', 'r', 'e', 'e', 'n']);
    assert("b"@ =~= seq!['b']);
    assert("i"@ =~= seq!['i']);
    assert("u"@ =~= seq!['u']);
    assert("em"@ =~= seq!['e', 'm']);
    assert("st"@ =~= seq!['s', 't']);
    assert("obf"@ =~= seq!['o', 'b', 'f']);
    assert("strikethrough"@ =~= seq!['s', 't', 'r', 'i', 'k', 'e', 't', 'h', 'r', 'o', 'u', 'g', 'h']);
    assert(!spec_is_color_tag("bold"@));
    assert(!spec_is_color_tag("italic"@));
    assert(!spec_is_color_tag("underlined"@));
    assert(!spec_is_color_tag("strikethrough"@));
    assert(!spec_is_color_tag("obfuscated"@));
    assert(!spec_is_bold_tag("italic"@) && !spec_is_bold_tag("underlined"@) && !spec_is_bold_tag("strikethrough"@) && !spec_is_bold_tag("obfuscated"@));
    assert(!spec_is_italic_tag("underlined"@) && !spec_is_italic_tag("strikethrough"@) && !spec_is_italic_tag("obfuscated"@));
    assert(!spec_is_underlined_tag("strikethrough"@) && !spec_is_underlined_tag("obfuscated"@));
    assert(!spec_is_strikethrough_tag("obfuscated"@));
    assert(!spec_is_color_tag("b"@) && !spec_is_color_tag("i"@) && !spec_is_color_tag("em"@)
        && !spec_is_color_tag("u"@) && !spec_is_color_tag("st"@) && !spec_is_color_tag("obf"@));
    assert("b"@[0] == 'b' && "i"@[0] == 'i' && "u"@[0] == 'u');
    assert("em"@[0] == 'e' && "st"@[0] == 's' && "obf"@[0] == 'o');
    assert("bold"@[0] == 'b' && "italic"@[0] == 'i');
    assert(!spec_is_bold_tag("i"@));
    assert(!spec_is_bold_tag("em"@));
    assert(!spec_is_bold_tag("u"@));
    assert(!spec_is_bold_tag("st"@));
    assert(!spec_is_bold_tag("obf"@));
    assert(!spec_is_italic_tag("u"@));
    assert(!spec_is_italic_tag("st"@));
    assert(!spec_is_italic_tag("obf"@));
    assert(!spec_is_underlined_tag("st"@));
    assert(!spec_is_underlined_tag("obf"@));
    assert(!spec_is_strikethrough_tag("obf"@));
}

/// Short and long names of decoration tags mean the same: replacing them in
/// opening and closing tags changes nothing that is read.
pub proof fn law_tag_aliases_read_alike(evs: Seq<XmlEventView>)
    ensures
        run(evs.map_values(|e: XmlEventView| canonical_event(e))) == run(evs),
    decreases evs.len(),
{
    let c = evs.map_values(|e: XmlEventView| canonical_event(e));
    if evs.len() > 0 {
        law_tag_aliases_read_alike(evs.drop_last());
        assert(c.drop_last() =~= evs.drop_last().map_values(|e: XmlEventView| canonical_event(e)));
        assert(c.last() == canonical_event(evs.last()));
        match evs.last() {
            XmlEventView::Start(n) => {
                lemma_canonical_tag(n);
            },
            XmlEventView::End(n) => {
                lemma_canonical_tag(n);
            },
            _ => {},
        }
    }
}

/// The style stack is never empty: a closing tag never pops the bottom style,
/// whatever events come.
pub proof fn law_style_stack_never_empty(evs: Seq<XmlEventView>)
    ensures
        run(evs).styles.len() >= 1,
    decreases evs.len(),
{
    if evs.len() > 0 {
        law_style_stack_never_empty(evs.drop_last());
    }
}

/// `newline` is not a styling tag.
proof fn lemma_newline_is_not_styling()
    ensures
        !spec_is_styling_tag("newline"@),
{
    reveal_strlit("newline");
    assert("newline"@.len() == 7);
    reveal_strlit("black");
    assert("black"@.len() == 5);
    reveal_strlit("dark_blue");
    assert("dark_blue"@.len() == 9);
    reveal_strlit("dark_green");
    assert("dark_green"@.len() == 10);
    reveal_strlit("dark_aqua");
    assert("dark_aqua"@.len() == 9);
    reveal_strlit("dark_red");
    assert("dark_red"@.len() == 8);
    reveal_strlit("dark_purple");
    assert("dark_purple"@.len() == 11);
    reveal_strlit("gold");
    assert("gold"@.len() == 4);
    reveal_strlit("gray");
    assert("gray"@.len() == 4);
    reveal_strlit("dark_gray");
    assert("dark_gray"@.len() == 9);
    reveal_strlit("blue");
    assert("blue"@.len() == 4);
    reveal_strlit("green");
    assert("green"@.len() == 5);
    reveal_strlit("aqua");
    assert("aqua"@.len() == 4);
    reveal_strlit("red");
    assert("red"@.len() == 3);
    reveal_strlit("light_purple");
    assert("light_purple"@.len() == 12);
    reveal_strlit("yellow");
    assert("yellow"@.len() == 6);
    reveal_strlit("white");
    assert("white"@.len() == 5);
    reveal_strlit("bold");
    assert("bold"@.len() == 4);
    reveal_strlit("b");
    assert("b"@.len() == 1);
    reveal_strlit("italic");
    assert("italic"@.len() == 6);
    reveal_strlit("i");
    assert("i"@.len() == 1);
    reveal_strlit("em");
    assert("em"@.len() == 2);
    reveal_strlit("underlined");
    assert("underlined"@.len() == 10);
    reveal_strlit("u");
    assert("u"@.len() == 1);
    reveal_strlit("strikethrough");
    assert("strikethrough"@.len() == 13);
    reveal_strlit("st");
    assert("st"@.len() == 2);
    reveal_strlit("obfuscated");
    assert("obfuscated"@.len() == 10);
    reveal_strlit("obf");
    assert("obf"@.len() == 3);
}

/// Closing a styling tag right after opening it restores the style in effect
/// before, and adds no component.
pub proof fn law_close_undoes_open(evs: Seq<XmlEventView>, tag: Seq<char>)
    requires
        spec_is_styling_tag(tag),
    ensures
        run(evs.push(XmlEventView::Start(tag)).push(XmlEventView::End(tag))) == run(evs),
{
    let e1 = evs.push(XmlEventView::Start(tag));
    let e2 = e1.push(XmlEventView::End(tag));
    assert(e2.drop_last() =~= e1);
    assert(e1.drop_last() =~= evs);
    law_style_stack_never_empty(evs);
    lemma_newline_is_not_styling();
    let st = run(evs);
    assert(run(e1).styles =~= st.styles.push(apply_tag(st.styles.last(), tag)));
    assert(run(e2).styles =~= st.styles);
}

/// Tag names of different kinds are different: a tag is at most one of a
/// color, bold, italic, underlined, strikethrough and obfuscated.
proof fn lemma_tag_kinds_disjoint(n: Seq<char>)
    ensures
        spec_is_color_tag(n) ==> !spec_is_bold_tag(n) && !spec_is_italic_tag(n) && !spec_is_underlined_tag(n)
            && !spec_is_strikethrough_tag(n) && !spec_is_obfuscated_tag(n),
        spec_is_bold_tag(n) ==> !spec_is_italic_tag(n) && !spec_is_underlined_tag(n)
            && !spec_is_strikethrough_tag(n) && !spec_is_obfuscated_tag(n),
        spec_is_italic_tag(n) ==> !spec_is_underlined_tag(n) && !spec_is_strikethrough_tag(n)
            && !spec_is_obfuscated_tag(n),
        spec_is_underlined_tag(n) ==> !spec_is_strikethrough_tag(n) && !spec_is_obfuscated_tag(n),
        spec_is_strikethrough_tag(n) ==> !spec_is_obfuscated_tag(n),
{
    reveal_strlit("black");
    assert("black"@.len() == 5 && "black"@[0] == 'b');
    reveal_strlit("dark_blue");
    assert("dark_blue"@.len() == 9 && "dark_blue"@[0] == 'd');
    reveal_strlit("dark_green");
    assert("dark_green"@.len() == 10 && "dark_green"@[0] == 'd');
    reveal_strlit("dark_aqua");
    assert("dark_aqua"@.len() == 9 && "dark_aqua"@[0] == 'd');
    reveal_strlit("dark_red");
    assert("dark_red"@.len() == 8 && "dark_red"@[0] == 'd');
    reveal_strlit("dark_purple");
    assert("dark_purple"@.len() == 11 && "dark_purple"@[0] == 'd');
    reveal_strlit("gold");
    assert("gold"@.len() == 4 && "gold"@[0] == 'g');
    reveal_strlit("gray");
    assert("gray"@.len() == 4 && "gray"@[0] == 'g');
    reveal_strlit("dark_gray");
    assert("dark_gray"@.len() == 9 && "dark_gray"@[0] == 'd');
    reveal_strlit("blue");
    assert("blue"@.len() == 4 && "blue"@[0] == 'b');
    reveal_strlit("green");
    assert("green"@.len() == 5 && "green"@[0] == 'g');
    reveal_strlit("aqua");
    assert("aqua"@.len() == 4 && "aqua"@[0] == 'a');
    reveal_strlit("red");
    assert("red"@.len() == 3 && "red"@[0] == 'r');
    reveal_strlit("light_purple");
    assert("light_purple"@.len() == 12 && "light_purple"@[0] == 'l');
    reveal_strlit("yellow");
    assert("yellow"@.len() == 6 && "yellow"@[0] == 'y');
    reveal_strlit("white");
    assert("white"@.len() == 5 && "white"@[0] == 'w');
    reveal_strlit("bold");
    assert("bold"@.len() == 4 && "bold"@[0] == 'b');
    reveal_strlit("b");
    assert("b"@.len() == 1 && "b"@[0] == 'b');
    reveal_strlit("italic");
    assert("italic"@.len() == 6 && "italic"@[0] == 'i');
    reveal_strlit("i");
    assert("i"@.len() == 1 && "i"@[0] == 'i');
    reveal_strlit("em");
    assert("em"@.len() == 2 && "em"@[0] == 'e');
    reveal_strlit("underlined");
    assert("underlined"@.len() == 10 && "underlined"@[0] == 'u');
    reveal_strlit("u");
    assert("u"@.len() == 1 && "u"@[0] == 'u');
    reveal_strlit("strikethrough");
    assert("strikethrough"@.len() == 13 && "strikethrough"@[0] == 's');
    reveal_strlit("st");
    assert("st"@.len() == 2 && "st"@[0] == 's');
    reveal_strlit("obfuscated");
    assert("obfuscated"@.len() == 10 && "obfuscated"@[0] == 'o');
    reveal_strlit("obf");
    assert("obf"@.len() == 3 && "obf"@[0] == 'o');
    assert("blue"@[1] == 'l' && "bold"@[1] == 'o');
}

/// After an opening styling tag, the text that follows is written in the
/// style in effect before, changed by that tag alone: a color tag sets its
/// own color whatever color was in effect, a decoration tag sets its own
/// decoration and keeps the color and the other decorations.
pub proof fn law_text_takes_the_style_of_its_tag(evs: Seq<XmlEventView>, tag: Seq<char>, t: Seq<char>)
    requires
        spec_is_styling_tag(tag),
        t.len() > 0,
    ensures
        ({
            let before = run(evs).styles.last();
            let after = run(evs.push(XmlEventView::Start(tag)).push(XmlEventView::Text(t)));
            let p = after.parts.last();
            &&& after.parts.len() == run(evs).parts.len() + 1
            &&& p.text == t
            &&& p.extra.len() == 0
            &&& p.color == (if spec_is_color_tag(tag) { Some(tag) } else { before.color })
            &&& p.bold == (before.bold || spec_is_bold_tag(tag))
            &&& p.italic == (before.italic || spec_is_italic_tag(tag))
            &&& p.underlined == (before.underlined || spec_is_underlined_tag(tag))
            &&& p.strikethrough == (before.strikethrough || spec_is_strikethrough_tag(tag))
            &&& p.obfuscated == (before.obfuscated || spec_is_obfuscated_tag(tag))
        }),
{
    let e1 = evs.push(XmlEventView::Start(tag));
    let e2 = e1.push(XmlEventView::Text(t));
    assert(e2.drop_last() =~= e1);
    assert(e1.drop_last() =~= evs);
    law_style_stack_never_empty(evs);
    lemma_newline_is_not_styling();
    lemma_tag_kinds_disjoint(tag);
    let st = run(evs);
    assert(run(e1).styles =~= st.styles.push(apply_tag(st.styles.last(), tag)));
}

/// An opening color tag sets its color, whatever color was in effect.
pub proof fn law_color_tag_sets_its_color(st: StyleView, tag: Seq<char>)
    requires
        spec_is_color_tag(tag),
    ensures
        apply_tag(st, tag).color == Some(tag),
{
}

/// A `newline` tag, self-closing or opening, adds one component holding a
/// line break in the style in effect, and leaves the style as it was.
pub proof fn law_newline_adds_a_line_break(evs: Seq<XmlEventView>, self_closing: bool)
    ensures
        ({
            let before = run(evs);
            let ev = if self_closing { XmlEventView::Empty("newline"@) } else { XmlEventView::Start("newline"@) };
            let after = run(evs.push(ev));
            let st = before.styles.last();
            &&& after.styles == before.styles
            &&& after.parts == before.parts.push(ComponentView {
                text: seq!['\n'],
                color: st.color,
                bold: st.bold,
                italic: st.italic,
                underlined: st.underlined,
                strikethrough: st.strikethrough,
                obfuscated: st.obfuscated,
                extra: Seq::empty(),
            })
        }),
{
    let ev = if self_closing { XmlEventView::Empty("newline"@) } else { XmlEventView::Start("newline"@) };
    assert(evs.push(ev).drop_last() =~= evs);
}

/// Non-empty text adds one component holding it in the style in effect, and
/// leaves the style as it was; empty text changes nothing.
pub proof fn law_text_is_written_in_the_current_style(evs: Seq<XmlEventView>, t: Seq<char>)
    ensures
        ({
            let before = run(evs);
            let after = run(evs.push(XmlEventView::Text(t)));
            let st = before.styles.last();
            &&& after.styles == before.styles
            &&& after.parts == (if t.len() == 0 {
                before.parts
            } else {
                before.parts.push(ComponentView {
                    text: t,
                    color: st.color,
                    bold: st.bold,
                    italic: st.italic,
                    underlined: st.underlined,
                    strikethrough: st.strikethrough,
                    obfuscated: st.obfuscated,
                    extra: Seq::empty(),
                })
            })
        }),
{
    assert(evs.push(XmlEventView::Text(t)).drop_last() =~= evs);
}

/// Tags that neither style nor break lines, opening, closing or
/// self-closing, and everything that is not a tag or text, change nothing.
pub proof fn law_other_markup_is_ignored(evs: Seq<XmlEventView>, n: Seq<char>)
    requires
        !spec_is_styling_tag(n),
        n != "newline"@,
    ensures
        run(evs.push(XmlEventView::Start(n))) == run(evs),
        run(evs.push(XmlEventView::End(n))) == run(evs),
        run(evs.push(XmlEventView::Empty(n))) == run(evs),
        run(evs.push(XmlEventView::Other)) == run(evs),
{
    assert(evs.push(XmlEventView::Start(n)).drop_last() =~= evs);
    assert(evs.push(XmlEventView::End(n)).drop_last() =~= evs);
    assert(evs.push(XmlEventView::Empty(n)).drop_last() =~= evs);
    assert(evs.push(XmlEventView::Other).drop_last() =~= evs);
}

/// Text read before any tag is written without style.
pub proof fn law_text_outside_tags_is_plain(t: Seq<char>)
    requires
        t.len() > 0,
    ensures
        spec_components_from_events(seq![XmlEventView::Text(t)]) == (ComponentView {
            extra: seq![ComponentView {
                text: t,
                color: None,
                bold: false,
                italic: false,
                underlined: false,
                strikethrough: false,
                obfuscated: false,
                extra: Seq::empty(),
            }],
            ..Component::spec_default()
        }),
{
    let evs = seq![XmlEventView::Text(t)];
    assert(evs.drop_last() =~= Seq::<XmlEventView>::empty());
    assert(run(evs.drop_last()) == initial_state());
    assert(initial_state().styles.last() == default_style());
    assert(run(evs).parts =~= seq![styled(t, default_style())]);
}

} // verus!
