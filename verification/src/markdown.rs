//! Markdown support: the event stream of a document, reduced to what the
//! title and description extraction reads, and the extraction itself as a
//! verified state machine over that stream.

use vstd::prelude::*;

verus! {

/// A markdown event, as the extraction logic sees it.
#[derive(Debug, Clone)]
pub enum MdEvent {
    /// A level-one heading opens.
    H1Start,
    /// A level-one heading closes.
    H1End,
    /// A paragraph opens.
    ParaStart,
    /// A paragraph closes.
    ParaEnd,
    /// Text inside the current block.
    Text(String),
    /// Any other event.
    Other,
}

/// The spec-level image of a markdown event.
pub enum MdEventV {
    H1Start,
    H1End,
    ParaStart,
    ParaEnd,
    Text(Seq<char>),
    Other,
}

impl View for MdEvent {
    type V = MdEventV;

    open spec fn view(&self) -> MdEventV {
        match self {
            MdEvent::H1Start => MdEventV::H1Start,
            MdEvent::H1End => MdEventV::H1End,
            MdEvent::ParaStart => MdEventV::ParaStart,
            MdEvent::ParaEnd => MdEventV::ParaEnd,
            MdEvent::Text(s) => MdEventV::Text(s@),
            MdEvent::Other => MdEventV::Other,
        }
    }
}

impl DeepView for MdEvent {
    type V = MdEventV;

    open spec fn deep_view(&self) -> MdEventV {
        self.view()
    }
}

/// The markdown event stream of a document, reduced to the events above.
pub uninterp spec fn md_events_of(s: Seq<char>) -> Seq<MdEventV>;

/// Relies on `pulldown_cmark::Parser`: the markdown event stream of the
/// input, a function of the input text alone, reduced to the events the
/// extraction reads.
#[verifier::external_body]
pub fn parse_events(s: &str) -> (r: Vec<MdEvent>)
    ensures
        r.deep_view() == md_events_of(s@),
{
    let reduce = |ev: pulldown_cmark::Event| match ev {
        pulldown_cmark::Event::Start(pulldown_cmark::Tag::Heading { level: pulldown_cmark::HeadingLevel::H1, .. }) => MdEvent::H1Start,
        pulldown_cmark::Event::End(pulldown_cmark::TagEnd::Heading(pulldown_cmark::HeadingLevel::H1)) => MdEvent::H1End,
        pulldown_cmark::Event::Start(pulldown_cmark::Tag::Paragraph) => MdEvent::ParaStart,
        pulldown_cmark::Event::End(pulldown_cmark::TagEnd::Paragraph) => MdEvent::ParaEnd,
        pulldown_cmark::Event::Text(t) => MdEvent::Text(t.into_string()),
        _ => MdEvent::Other,
    };
    pulldown_cmark::Parser::new(s).map(reduce).collect()
}

/// The HTML a markdown document renders to.
pub uninterp spec fn html_of(s: Seq<char>) -> Seq<char>;

/// Relies on `pulldown_cmark::html::push_html`: the HTML rendering of the
/// input, a function of the input text alone.
#[verifier::external_body]
pub fn markdown_to_html(markdown: &str) -> (r: String)
    ensures
        r@ == html_of(markdown@),
{
    let parser = pulldown_cmark::Parser::new(markdown);
    let mut html_output = String::new();
    pulldown_cmark::html::push_html(&mut html_output, parser);
    html_output
}

/// The extraction state: the title found so far, the description gathered
/// so far, and where in the document the walk stands.
pub struct ExtractState {
    pub title: Option<Seq<char>>,
    pub description: Seq<char>,
    pub in_h1: bool,
    pub in_para: bool,
    pub desc_done: bool,
}

pub open spec fn extract_init() -> ExtractState {
    ExtractState {
        title: None,
        description: Seq::empty(),
        in_h1: false,
        in_para: false,
        desc_done: false,
    }
}

/// One extraction step: the first H1's text becomes the title, the text of
/// the first paragraph after the title becomes the description.
pub open spec fn extract_step(st: ExtractState, ev: MdEventV) -> ExtractState {
    match ev {
        MdEventV::H1Start => if st.title is None {
            ExtractState { in_h1: true, ..st }
        } else {
            st
        },
        MdEventV::H1End => if st.in_h1 {
            ExtractState { in_h1: false, ..st }
        } else {
            st
        },
        MdEventV::ParaStart => if st.title is Some && !st.desc_done {
            ExtractState { in_para: true, ..st }
        } else {
            st
        },
        MdEventV::ParaEnd => if st.in_para {
            ExtractState { in_para: false, desc_done: true, ..st }
        } else {
            st
        },
        MdEventV::Text(t) => if st.in_h1 {
            ExtractState { title: Some(t), ..st }
        } else if st.in_para {
            ExtractState { description: st.description + t, ..st }
        } else {
            st
        },
        MdEventV::Other => st,
    }
}

pub open spec fn extract_fold(events: Seq<MdEventV>, st: ExtractState) -> ExtractState
    decreases events.len(),
{
    if events.len() == 0 {
        st
    } else {
        extract_fold(events.drop_first(), extract_step(st, events[0]))
    }
}

/// The extraction result of a whole event stream.
pub open spec fn extract_spec(events: Seq<MdEventV>) -> ExtractState {
    extract_fold(events, extract_init())
}

pub proof fn lemma_extract_fold_snoc(events: Seq<MdEventV>, st: ExtractState, ev: MdEventV)
    ensures
        extract_fold(events.push(ev), st) == extract_step(extract_fold(events, st), ev),
    decreases events.len(),
{
    if events.len() == 0 {
        assert(events.push(ev).drop_first() =~= Seq::<MdEventV>::empty());
        assert(events.push(ev)[0] == ev);
        assert(extract_fold(events.push(ev), st) == extract_fold(
            Seq::<MdEventV>::empty(),
            extract_step(st, ev),
        ));
        assert(extract_fold(Seq::<MdEventV>::empty(), extract_step(st, ev)) == extract_step(
            st,
            ev,
        ));
        assert(extract_fold(events, st) == st);
    } else {
        lemma_extract_fold_snoc(events.drop_first(), extract_step(st, events[0]), ev);
        assert(events.push(ev)[0] == events[0]);
        assert(events.push(ev).drop_first() =~= events.drop_first().push(ev));
        assert(extract_fold(events.push(ev), st) == extract_fold(
            events.drop_first().push(ev),
            extract_step(st, events[0]),
        ));
    }
}

/// Walks the event stream and returns the extracted title, if any heading
/// gave one, and the extracted description.
pub fn extract(events: &Vec<MdEvent>) -> (r: (Option<String>, String))
    ensures
        match r.0 {
            Some(t) => extract_spec(events.deep_view()).title == Some(t@),
            None => extract_spec(events.deep_view()).title is None,
        },
        r.1@ == extract_spec(events.deep_view()).description,
{
    let ghost evs = events.deep_view();
    let mut title: Option<String> = None;
    let mut description = String::new();
    let mut in_h1 = false;
    let mut in_para = false;
    let mut desc_done = false;
    let mut i: usize = 0;
    while i < events.len()
        invariant
            evs == events.deep_view(),
            evs.len() == events@.len(),
            i <= events@.len(),
            ({
                let st = extract_fold(evs.take(i as int), extract_init());
                &&& (match title {
                    Some(t) => st.title == Some(t@),
                    None => st.title is None,
                })
                &&& description@ == st.description
                &&& in_h1 == st.in_h1
                &&& in_para == st.in_para
                &&& desc_done == st.desc_done
            }),
        decreases events@.len() - i,
    {
        proof {
            lemma_extract_fold_snoc(evs.take(i as int), extract_init(), evs[i as int]);
            assert(evs.take(i + 1) =~= evs.take(i as int).push(evs[i as int]));
            assert(events.deep_view()[i as int] == events@[i as int]@);
        }
        match &events[i] {
            MdEvent::H1Start => {
                if title.is_none() {
                    in_h1 = true;
                }
            },
            MdEvent::H1End => {
                if in_h1 {
                    in_h1 = false;
                }
            },
            MdEvent::ParaStart => {
                if title.is_some() && !desc_done {
                    in_para = true;
                }
            },
            MdEvent::ParaEnd => {
                if in_para {
                    in_para = false;
                    desc_done = true;
                }
            },
            MdEvent::Text(t) => {
                if in_h1 {
                    title = Some(t.clone());
                } else if in_para {
                    description.append(t.as_str());
                }
            },
            MdEvent::Other => {},
        }
        i = i + 1;
    }
    proof {
        assert(evs.take(events@.len() as int) =~= evs);
    }
    (title, description)
}

/// Whether the stream opens a level-one heading anywhere.
pub open spec fn has_h1(events: Seq<MdEventV>) -> bool {
    exists|i: int| 0 <= i < events.len() && events[i] is H1Start
}

/// Whether the stream opens a paragraph anywhere.
pub open spec fn has_paragraph(events: Seq<MdEventV>) -> bool {
    exists|i: int| 0 <= i < events.len() && events[i] is ParaStart
}

/// A document with no level-one heading yields no title: the caller falls
/// back to the formatted creation date.
pub proof fn lemma_no_h1_no_title(events: Seq<MdEventV>)
    requires
        !has_h1(events),
    ensures
        extract_spec(events).title is None,
{
    lemma_no_h1_fold(events, extract_init());
}

proof fn lemma_no_h1_fold(events: Seq<MdEventV>, st: ExtractState)
    requires
        st.title is None,
        !st.in_h1,
        forall|i: int| 0 <= i < events.len() ==> !(#[trigger] events[i] is H1Start),
    ensures
        extract_fold(events, st).title is None,
    decreases events.len(),
{
    if events.len() > 0 {
        let st2 = extract_step(st, events[0]);
        assert(!(events[0] is H1Start));
        assert(st2.title is None && !st2.in_h1);
        assert(forall|i: int|
            0 <= i < events.drop_first().len() ==> !(#[trigger] events.drop_first()[i]
                is H1Start));
        lemma_no_h1_fold(events.drop_first(), st2);
    }
}

/// A document with no paragraph yields an empty description; in particular
/// a heading with nothing after it.
pub proof fn lemma_no_paragraph_empty_description(events: Seq<MdEventV>)
    requires
        !has_paragraph(events),
    ensures
        extract_spec(events).description.len() == 0,
{
    lemma_no_para_fold(events, extract_init());
}

proof fn lemma_no_para_fold(events: Seq<MdEventV>, st: ExtractState)
    requires
        st.description.len() == 0,
        !st.in_para,
        forall|i: int| 0 <= i < events.len() ==> !(#[trigger] events[i] is ParaStart),
    ensures
        extract_fold(events, st).description.len() == 0,
    decreases events.len(),
{
    if events.len() > 0 {
        let st2 = extract_step(st, events[0]);
        assert(!(events[0] is ParaStart));
        assert(st2.description.len() == 0 && !st2.in_para);
        assert(forall|i: int|
            0 <= i < events.drop_first().len() ==> !(#[trigger] events.drop_first()[i]
                is ParaStart));
        lemma_no_para_fold(events.drop_first(), st2);
    }
}

} // verus!
