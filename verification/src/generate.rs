//! Generates markdown text or plain text from a syntax tree.
//!
//! [`ToMarkdownString`] turns any part of a tree into text. What the text is, is
//! stated by [`render`] and [`render_all`] over the views of the tree, for every
//! choice of [`ToMarkdownStringOption`]. Each type of the tree also has
//! `to_string()`, which renders with the default options.

use crate::ast::{
    nodes_of, BlockQuote, Bold, ItalicsStar, ItalicsUnderscore, MarkdownDocument,
    MarkdownElement, MarkdownElementCollection, MultiLineCode, Node, OneLineCode, Plain,
    Spoiler, Strikethrough, Style, Underline,
};
use vstd::prelude::*;
use vstd::std_specs::iter::IteratorSpec;

verus! {

broadcast use vstd::string::group_string_axioms;

/// Alters what [`ToMarkdownString::to_markdown_string`] writes.
#[non_exhaustive]
pub struct ToMarkdownStringOption {
    /// Omit markdown styling from the output
    pub omit_format: bool,
    /// Omit spoilers from the output
    pub omit_spoiler: bool,
}

impl ToMarkdownStringOption {
    /// The options that keep the styling and the spoilers.
    pub fn new() -> (r: Self)
        ensures
            r == default_option(),
    {
        Self { omit_format: false, omit_spoiler: false }
    }

    /// Sets whether the styling is left out.
    pub fn omit_format(self, value: bool) -> (r: Self)
        ensures
            r.omit_format == value,
            r.omit_spoiler == self.omit_spoiler,
    {
        Self { omit_format: value, omit_spoiler: self.omit_spoiler }
    }

    /// Sets whether the spoilers are left out.
    pub fn omit_spoiler(self, value: bool) -> (r: Self)
        ensures
            r.omit_format == self.omit_format,
            r.omit_spoiler == value,
    {
        Self { omit_format: self.omit_format, omit_spoiler: value }
    }
}

impl Default for ToMarkdownStringOption {
    fn default() -> (r: Self)
        ensures
            r == default_option(),
    {
        Self { omit_format: false, omit_spoiler: false }
    }
}

/// The options that keep the styling and the spoilers.
pub open spec fn default_option() -> ToMarkdownStringOption {
    ToMarkdownStringOption { omit_format: false, omit_spoiler: false }
}

/// The options that strip the styling and keep the text of spoilers.
pub open spec fn plain_option() -> ToMarkdownStringOption {
    ToMarkdownStringOption { omit_format: true, omit_spoiler: false }
}

/// The fence of inline code.
pub open spec fn code_fence() -> Seq<char> {
    seq!['`']
}

/// The fence of a code block.
pub open spec fn block_fence() -> Seq<char> {
    seq!['`', '`', '`']
}

/// The text of a language tag, which is empty where there is none.
pub open spec fn language_text(language: Option<Seq<char>>) -> Seq<char> {
    match language {
        Some(l) => l,
        None => Seq::empty(),
    }
}

/// A text with `"> "` put after each of its line breaks.
pub open spec fn quoted_tail(text: Seq<char>) -> Seq<char>
    decreases text.len(),
{
    if text.len() == 0 {
        Seq::empty()
    } else if text[0] == '\n' {
        seq!['\n', '>', ' '] + quoted_tail(text.drop_first())
    } else {
        seq![text[0]] + quoted_tail(text.drop_first())
    }
}

/// A text as a block quote: each of its lines, the pieces between its line breaks,
/// is preceded by `"> "`. An empty text is one empty line.
pub open spec fn quoted(text: Seq<char>) -> Seq<char> {
    seq!['>', ' '] + quoted_tail(text)
}

/// The text that a node is rendered as.
///
/// Plain text and code are written as they are, code between its fences unless
/// the format is omitted. A styled span is its content between two delimiters,
/// or the content alone where the format is omitted; a spoiler is nothing at all
/// where spoilers are omitted. A block quote is its content, quoted line by line
/// unless the format is omitted.
pub open spec fn render(node: Node, option: ToMarkdownStringOption) -> Seq<char>
    decreases node,
{
    match node {
        Node::Plain(text) => text,
        Node::Styled(style, children) => {
            if style is Spoiler && option.omit_spoiler {
                Seq::empty()
            } else if option.omit_format {
                render_all(children, option)
            } else {
                style.delimiter() + render_all(children, option) + style.delimiter()
            }
        },
        Node::OneLineCode(text) => {
            if option.omit_format {
                text
            } else {
                code_fence() + text + code_fence()
            }
        },
        Node::MultiLineCode(text, language) => {
            if option.omit_format {
                text
            } else {
                block_fence() + language_text(language) + text + block_fence()
            }
        },
        Node::BlockQuote(children) => {
            if option.omit_format {
                render_all(children, option)
            } else {
                quoted(render_all(children, option))
            }
        },
    }
}

/// The text that a sequence of nodes is rendered as: the texts of the nodes, one
/// after the other.
pub open spec fn render_all(nodes: Seq<Node>, option: ToMarkdownStringOption) -> Seq<char>
    decreases nodes,
{
    if nodes.len() == 0 {
        Seq::empty()
    } else {
        render(nodes.first(), option) + render_all(nodes.drop_first(), option)
    }
}

/// The text of all plain and code leaves of a node, in order, without any
/// delimiter.
pub open spec fn plain_text(node: Node) -> Seq<char>
    decreases node,
{
    match node {
        Node::Plain(text) => text,
        Node::Styled(_, children) => plain_text_all(children),
        Node::OneLineCode(text) => text,
        Node::MultiLineCode(text, _) => text,
        Node::BlockQuote(children) => plain_text_all(children),
    }
}

/// The text of all plain and code leaves of a sequence of nodes, in order.
pub open spec fn plain_text_all(nodes: Seq<Node>) -> Seq<char>
    decreases nodes,
{
    if nodes.len() == 0 {
        Seq::empty()
    } else {
        plain_text(nodes.first()) + plain_text_all(nodes.drop_first())
    }
}

/// Rendering a concatenation renders the parts one after the other.
pub proof fn lemma_render_all_concat(a: Seq<Node>, b: Seq<Node>, option: ToMarkdownStringOption)
    ensures
        render_all(a + b, option) == render_all(a, option) + render_all(b, option),
    decreases a.len(),
{
    if a.len() == 0 {
        assert(a + b =~= b);
        assert(render_all(a, option) + render_all(b, option) =~= render_all(b, option));
    } else {
        lemma_render_all_concat(a.drop_first(), b, option);
        assert((a + b).drop_first() =~= a.drop_first() + b);
        assert((a + b).first() == a.first());
        assert(render_all(a + b, option) =~= render_all(a, option) + render_all(b, option));
    }
}

/// Rendering a sequence of one node renders that node.
pub proof fn lemma_render_all_single(node: Node, option: ToMarkdownStringOption)
    ensures
        render_all(seq![node], option) == render(node, option),
{
    let s = seq![node];
    assert(s.drop_first() =~= Seq::<Node>::empty());
    assert(render_all(s.drop_first(), option) =~= Seq::<char>::empty());
    assert(render_all(s, option) =~= render(node, option));
}

/// Stripping the format leaves exactly the text of the leaves.
pub proof fn lemma_plain_extraction(node: Node)
    ensures
        render(node, plain_option()) == plain_text(node),
    decreases node,
{
    match node {
        Node::Styled(_, children) => lemma_plain_extraction_all(children),
        Node::BlockQuote(children) => lemma_plain_extraction_all(children),
        _ => {},
    }
}

/// Stripping the format leaves exactly the text of the leaves, for a sequence of
/// nodes.
pub proof fn lemma_plain_extraction_all(nodes: Seq<Node>)
    ensures
        render_all(nodes, plain_option()) == plain_text_all(nodes),
    decreases nodes,
{
    if nodes.len() > 0 {
        lemma_plain_extraction(nodes.first());
        lemma_plain_extraction_all(nodes.drop_first());
    }
}

/// With spoilers omitted, a spoiler renders as nothing, whatever it holds and
/// whether or not the format is kept.
pub proof fn lemma_spoiler_omitted(children: Seq<Node>, option: ToMarkdownStringOption)
    requires
        option.omit_spoiler,
    ensures
        render(Node::Styled(Style::Spoiler, children), option) == Seq::<char>::empty(),
{
}

/// What `String::push` does: it appends the given character to the end of the
/// string.
pub assume_specification[ String::push ](s: &mut String, c: char)
    ensures
        final(s)@ == old(s)@.push(c),
;

/// The text `content` between two copies of `delimiter`.
fn enclose(delimiter: &str, content: &str) -> (r: String)
    ensures
        r@ == delimiter@ + content@ + delimiter@,
{
    let mut out = delimiter.to_owned();
    out.append(content);
    out.append(delimiter);
    out
}

/// Puts `"> "` in front of each line of `text`.
fn quote_lines(text: &str) -> (r: String)
    ensures
        r@ == quoted(text@),
{
    let mut out = "> ".to_owned();
    proof {
        reveal_strlit("> ");
        assert(out@ =~= seq!['>', ' ']);
    }
    let mut rest = text.chars();
    let ghost mut done: int = 0;
    assert(text@.skip(0) =~= text@);
    loop
        invariant
            0 <= done <= text@.len(),
            rest.remaining() == text@.skip(done),
            out@ + quoted_tail(text@.skip(done)) == quoted(text@),
        ensures
            out@ == quoted(text@),
        decreases text@.len() - done,
    {
        let ghost before = out@;
        let ghost tail = text@.skip(done);
        match rest.next() {
            None => {
                assert(quoted_tail(tail) =~= Seq::<char>::empty());
                assert(out@ =~= out@ + quoted_tail(tail));
                break ;
            },
            Some(c) => {
                out.push(c);
                if c == '\n' {
                    out.append("> ");
                }
                proof {
                    reveal_strlit("> ");
                    assert(tail.drop_first() =~= text@.skip(done + 1));
                    assert(out@ + quoted_tail(text@.skip(done + 1)) =~= before + quoted_tail(tail));
                    done = done + 1;
                }
            },
        }
    }
    out
}

/// Conversion of a part of a syntax tree into text.
pub trait ToMarkdownString {
    /// The text that this part of the tree is rendered as under `option`.
    spec fn markdown(&self, option: &ToMarkdownStringOption) -> Seq<char>;

    /// Returns the content of the component as markdown styled text.
    fn to_markdown_string(&self, option: &ToMarkdownStringOption) -> (r: String)
        ensures
            r@ == self.markdown(option),
    ;
}

impl ToMarkdownString for MarkdownDocument {
    open spec fn markdown(&self, option: &ToMarkdownStringOption) -> Seq<char> {
        render_all(self@, *option)
    }

    /// Returns the content of the document as markdown styled text.
    fn to_markdown_string(&self, option: &ToMarkdownStringOption) -> (r: String) {
        self.content().to_markdown_string(option)
    }
}

impl ToMarkdownString for MarkdownElementCollection {
    open spec fn markdown(&self, option: &ToMarkdownStringOption) -> Seq<char> {
        render_all(self@, *option)
    }

    /// Returns the content of the collection as markdown styled text.
    fn to_markdown_string(&self, option: &ToMarkdownStringOption) -> (r: String)
        decreases self@, 0int,
    {
        let elements = self.get();
        let mut out = String::new();
        let mut i: usize = 0;
        assert(self@.take(0) =~= Seq::<Node>::empty());
        while i < elements.len()
            invariant
                i <= elements.len(),
                nodes_of(elements@) == self@,
                out@ == render_all(self@.take(i as int), *option),
            decreases elements.len() - i,
        {
            let piece = elements[i].to_markdown_string(option);
            out.append(piece.as_str());
            proof {
                let done = self@.take(i as int);
                lemma_render_all_concat(done, seq![self@[i as int]], *option);
                lemma_render_all_single(self@[i as int], *option);
                assert(self@.take(i + 1) =~= done + seq![self@[i as int]]);
            }
            i += 1;
        }
        assert(self@.take(i as int) =~= self@);
        out
    }
}

impl ToMarkdownString for MarkdownElement {
    open spec fn markdown(&self, option: &ToMarkdownStringOption) -> Seq<char> {
        render(self@, *option)
    }

    /// Returns the content of the element as markdown styled text.
    fn to_markdown_string(&self, option: &ToMarkdownStringOption) -> (r: String)
        decreases self@, 1int,
    {
        match self {
            MarkdownElement::Plain(x) => x.to_markdown_string(option),
            MarkdownElement::ItalicsStar(x) => x.to_markdown_string(option),
            MarkdownElement::ItalicsUnderscore(x) => x.to_markdown_string(option),
            MarkdownElement::Bold(x) => x.to_markdown_string(option),
            MarkdownElement::Underline(x) => x.to_markdown_string(option),
            MarkdownElement::Strikethrough(x) => x.to_markdown_string(option),
            MarkdownElement::Spoiler(x) => x.to_markdown_string(option),
            MarkdownElement::OneLineCode(x) => x.to_markdown_string(option),
            MarkdownElement::MultiLineCode(x) => x.to_markdown_string(option),
            MarkdownElement::BlockQuote(x) => x.to_markdown_string(option),
        }
    }
}

impl ToMarkdownString for Plain {
    open spec fn markdown(&self, option: &ToMarkdownStringOption) -> Seq<char> {
        render(self@, *option)
    }

    /// Returns the content of the plain text.
    fn to_markdown_string(&self, option: &ToMarkdownStringOption) -> (r: String)
        decreases self@, 0int,
    {
        self.content().to_owned()
    }
}

impl ToMarkdownString for ItalicsStar {
    open spec fn markdown(&self, option: &ToMarkdownStringOption) -> Seq<char> {
        render(self@, *option)
    }

    /// Returns the content of italics text as markdown styled text.
    fn to_markdown_string(&self, option: &ToMarkdownStringOption) -> (r: String)
        decreases self@, 0int,
    {
        let children = self.content();
        assert(children@ == self@->Styled_1);
        let content = children.to_markdown_string(option);

        if option.omit_format {
            content
        } else {
            enclose(Style::ItalicsStar.as_str(), content.as_str())
        }
    }
}

impl ToMarkdownString for ItalicsUnderscore {
    open spec fn markdown(&self, option: &ToMarkdownStringOption) -> Seq<char> {
        render(self@, *option)
    }

    /// Returns the content of italics text as markdown styled text.
    fn to_markdown_string(&self, option: &ToMarkdownStringOption) -> (r: String)
        decreases self@, 0int,
    {
        let children = self.content();
        assert(children@ == self@->Styled_1);
        let content = children.to_markdown_string(option);

        if option.omit_format {
            content
        } else {
            enclose(Style::ItalicsUnderscore.as_str(), content.as_str())
        }
    }
}

impl ToMarkdownString for Bold {
    open spec fn markdown(&self, option: &ToMarkdownStringOption) -> Seq<char> {
        render(self@, *option)
    }

    /// Returns the content of bold text as markdown styled text.
    fn to_markdown_string(&self, option: &ToMarkdownStringOption) -> (r: String)
        decreases self@, 0int,
    {
        let children = self.content();
        assert(children@ == self@->Styled_1);
        let content = children.to_markdown_string(option);

        if option.omit_format {
            content
        } else {
            enclose(Style::Bold.as_str(), content.as_str())
        }
    }
}

impl ToMarkdownString for Underline {
    open spec fn markdown(&self, option: &ToMarkdownStringOption) -> Seq<char> {
        render(self@, *option)
    }

    /// Returns the content of underline text as markdown styled text.
    fn to_markdown_string(&self, option: &ToMarkdownStringOption) -> (r: String)
        decreases self@, 0int,
    {
        let children = self.content();
        assert(children@ == self@->Styled_1);
        let content = children.to_markdown_string(option);

        if option.omit_format {
            content
        } else {
            enclose(Style::Underline.as_str(), content.as_str())
        }
    }
}

impl ToMarkdownString for Strikethrough {
    open spec fn markdown(&self, option: &ToMarkdownStringOption) -> Seq<char> {
        render(self@, *option)
    }

    /// Returns the content of strikethrough text as markdown styled text.
    fn to_markdown_string(&self, option: &ToMarkdownStringOption) -> (r: String)
        decreases self@, 0int,
    {
        let children = self.content();
        assert(children@ == self@->Styled_1);
        let content = children.to_markdown_string(option);

        if option.omit_format {
            content
        } else {
            enclose(Style::Strikethrough.as_str(), content.as_str())
        }
    }
}

impl ToMarkdownString for Spoiler {
    open spec fn markdown(&self, option: &ToMarkdownStringOption) -> Seq<char> {
        render(self@, *option)
    }

    /// Returns the content of spoiler text as markdown styled text.
    fn to_markdown_string(&self, option: &ToMarkdownStringOption) -> (r: String)
        decreases self@, 0int,
    {
        let children = self.content();
        assert(children@ == self@->Styled_1);
        let content = children.to_markdown_string(option);

        if option.omit_spoiler {
            String::new()
        } else if option.omit_format {
            content
        } else {
            enclose(Style::Spoiler.as_str(), content.as_str())
        }
    }
}

impl ToMarkdownString for OneLineCode {
    open spec fn markdown(&self, option: &ToMarkdownStringOption) -> Seq<char> {
        render(self@, *option)
    }

    /// Returns the content of the inline code block as markdown styled text.
    fn to_markdown_string(&self, option: &ToMarkdownStringOption) -> (r: String)
        decreases self@, 0int,
    {
        let content = self.content();

        if option.omit_format {
            content.to_owned()
        } else {
            proof {
                reveal_strlit("`");
                assert("`"@ =~= code_fence());
            }
            enclose("`", content)
        }
    }
}

impl ToMarkdownString for MultiLineCode {
    open spec fn markdown(&self, option: &ToMarkdownStringOption) -> Seq<char> {
        render(self@, *option)
    }

    /// Returns the content of the multiline code block as markdown styled text.
    fn to_markdown_string(&self, option: &ToMarkdownStringOption) -> (r: String)
        decreases self@, 0int,
    {
        let content = self.content();

        if option.omit_format {
            content.to_owned()
        } else {
            proof {
                reveal_strlit("```");
                assert("```"@ =~= block_fence());
            }
            let mut out = "```".to_owned();
            match self.language() {
                Some(language) => out.append(language),
                None => {},
            }
            out.append(content);
            out.append("```");
            assert(out@ =~= self.markdown(option));
            out
        }
    }
}

impl ToMarkdownString for BlockQuote {
    open spec fn markdown(&self, option: &ToMarkdownStringOption) -> Seq<char> {
        render(self@, *option)
    }

    /// Returns the content of the block quote as markdown styled text.
    fn to_markdown_string(&self, option: &ToMarkdownStringOption) -> (r: String)
        decreases self@, 0int,
    {
        let children = self.content();
        assert(children@ == self@->BlockQuote_0);
        let content = children.to_markdown_string(option);

        if option.omit_format {
            content
        } else {
            quote_lines(content.as_str())
        }
    }
}

impl MarkdownDocument {
    /// Generates markdown text with the default options.
    pub fn to_string(&self) -> (r: String)
        ensures
            r@ == render_all(self@, default_option()),
    {
        self.to_markdown_string(&ToMarkdownStringOption::new())
    }
}

impl MarkdownElementCollection {
    /// Generates markdown text with the default options.
    pub fn to_string(&self) -> (r: String)
        ensures
            r@ == render_all(self@, default_option()),
    {
        self.to_markdown_string(&ToMarkdownStringOption::new())
    }
}

impl MarkdownElement {
    /// Generates markdown text with the default options.
    pub fn to_string(&self) -> (r: String)
        ensures
            r@ == render(self@, default_option()),
    {
        self.to_markdown_string(&ToMarkdownStringOption::new())
    }
}

impl Plain {
    /// Generates markdown text with the default options.
    pub fn to_string(&self) -> (r: String)
        ensures
            r@ == render(self@, default_option()),
    {
        self.to_markdown_string(&ToMarkdownStringOption::new())
    }
}

impl ItalicsStar {
    /// Generates markdown text with the default options.
    pub fn to_string(&self) -> (r: String)
        ensures
            r@ == render(self@, default_option()),
    {
        self.to_markdown_string(&ToMarkdownStringOption::new())
    }
}

impl ItalicsUnderscore {
    /// Generates markdown text with the default options.
    pub fn to_string(&self) -> (r: String)
        ensures
            r@ == render(self@, default_option()),
    {
        self.to_markdown_string(&ToMarkdownStringOption::new())
    }
}

impl Bold {
    /// Generates markdown text with the default options.
    pub fn to_string(&self) -> (r: String)
        ensures
            r@ == render(self@, default_option()),
    {
        self.to_markdown_string(&ToMarkdownStringOption::new())
    }
}

impl Underline {
    /// Generates markdown text with the default options.
    pub fn to_string(&self) -> (r: String)
        ensures
            r@ == render(self@, default_option()),
    {
        self.to_markdown_string(&ToMarkdownStringOption::new())
    }
}

impl Strikethrough {
    /// Generates markdown text with the default options.
    pub fn to_string(&self) -> (r: String)
        ensures
            r@ == render(self@, default_option()),
    {
        self.to_markdown_string(&ToMarkdownStringOption::new())
    }
}

impl Spoiler {
    /// Generates markdown text with the default options.
    pub fn to_string(&self) -> (r: String)
        ensures
            r@ == render(self@, default_option()),
    {
        self.to_markdown_string(&ToMarkdownStringOption::new())
    }
}

impl OneLineCode {
    /// Generates markdown text with the default options.
    pub fn to_string(&self) -> (r: String)
        ensures
            r@ == render(self@, default_option()),
    {
        self.to_markdown_string(&ToMarkdownStringOption::new())
    }
}

impl MultiLineCode {
    /// Generates markdown text with the default options.
    pub fn to_string(&self) -> (r: String)
        ensures
            r@ == render(self@, default_option()),
    {
        self.to_markdown_string(&ToMarkdownStringOption::new())
    }
}

impl BlockQuote {
    /// Generates markdown text with the default options.
    pub fn to_string(&self) -> (r: String)
        ensures
            r@ == render(self@, default_option()),
    {
        self.to_markdown_string(&ToMarkdownStringOption::new())
    }
}

impl MarkdownDocument {
    /// Extracts the text: what is plain and what is code, without any
    /// delimiter. The text of spoilers is kept.
    pub fn to_plain_string(&self) -> (r: String)
        ensures
            r@ == plain_text_all(self@),
    {
        proof {
            lemma_plain_extraction_all(self@);
        }
        self.to_markdown_string(&ToMarkdownStringOption::new().omit_format(true))
    }
}

impl MarkdownElementCollection {
    /// Extracts the text: what is plain and what is code, without any
    /// delimiter. The text of spoilers is kept.
    pub fn to_plain_string(&self) -> (r: String)
        ensures
            r@ == plain_text_all(self@),
    {
        proof {
            lemma_plain_extraction_all(self@);
        }
        self.to_markdown_string(&ToMarkdownStringOption::new().omit_format(true))
    }
}

impl MarkdownElement {
    /// Extracts the text: what is plain and what is code, without any
    /// delimiter. The text of spoilers is kept.
    pub fn to_plain_string(&self) -> (r: String)
        ensures
            r@ == plain_text(self@),
    {
        proof {
            lemma_plain_extraction(self@);
        }
        self.to_markdown_string(&ToMarkdownStringOption::new().omit_format(true))
    }
}

} // verus!
