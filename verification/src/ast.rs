//! Syntax tree of a markdown message.
//!
//! A tree consists of a [`MarkdownDocument`], which holds a
//! [`MarkdownElementCollection`], which in turn is an ordered list of
//! [`MarkdownElement`]s. The content of an element can itself be a collection, so
//! `__*nested* styles__` is a valid element.
//!
//! Every type of the tree has a mathematical view. The view of an element is a
//! [`Node`], the view of a collection and of a document is a sequence of nodes.
//! All contracts of this crate are stated over these views.

use vstd::prelude::*;
use vstd::std_specs::cmp::PartialEqSpecImpl;
use vstd::std_specs::convert::FromSpecImpl;
use vstd::std_specs::iter::IteratorSpec;

verus! {

/// The six inline styles that wrap a collection between two equal delimiters.
#[derive(Debug, Clone, Copy, PartialEq, Eq, Hash)]
pub enum Style {
    /// Italics, wrapped in `*`.
    ItalicsStar,
    /// Italics, wrapped in `_`.
    ItalicsUnderscore,
    /// Bold, wrapped in `**`.
    Bold,
    /// Underline, wrapped in `__`.
    Underline,
    /// Strikethrough, wrapped in `~~`.
    Strikethrough,
    /// Spoiler, wrapped in `||`.
    Spoiler,
}

impl Style {
    /// The character sequence that opens and closes a span of this style.
    pub open spec fn delimiter(self) -> Seq<char> {
        match self {
            Style::ItalicsStar => seq!['*'],
            Style::ItalicsUnderscore => seq!['_'],
            Style::Bold => seq!['*', '*'],
            Style::Underline => seq!['_', '_'],
            Style::Strikethrough => seq!['~', '~'],
            Style::Spoiler => seq!['|', '|'],
        }
    }
}

impl Style {
    /// The delimiter of this style as text.
    pub fn as_str(self) -> (r: &'static str)
        ensures
            r@ == self.delimiter(),
    {
        let r = match self {
            Style::ItalicsStar => "*",
            Style::ItalicsUnderscore => "_",
            Style::Bold => "**",
            Style::Underline => "__",
            Style::Strikethrough => "~~",
            Style::Spoiler => "||",
        };
        proof {
            reveal_strlit("*");
            reveal_strlit("_");
            reveal_strlit("**");
            reveal_strlit("__");
            reveal_strlit("~~");
            reveal_strlit("||");
            assert(r@ =~= self.delimiter());
        }
        r
    }
}

/// The mathematical model of a [`MarkdownElement`].
pub enum Node {
    /// Plain text.
    Plain(Seq<char>),
    /// A styled span: the style and the nodes it wraps.
    Styled(Style, Seq<Node>),
    /// Inline code: the verbatim content.
    OneLineCode(Seq<char>),
    /// A fenced code block: the verbatim content and the language tag.
    MultiLineCode(Seq<char>, Option<Seq<char>>),
    /// A block quote: the nodes it quotes.
    BlockQuote(Seq<Node>),
}

/// A markdown document. The root of the tree.
#[derive(Debug, Eq, Hash)]
pub struct MarkdownDocument {
    content: MarkdownElementCollection,
}

/// A collection of [`MarkdownElement`]s, in the order in which they are rendered.
#[derive(Debug, Eq, Hash)]
pub struct MarkdownElementCollection(Vec<MarkdownElement>);

/// A markdown element.
#[derive(Debug, Eq, Hash)]
pub enum MarkdownElement {
    /// Plain text.
    Plain(Box<Plain>),
    /// Italics text, wrapped in `*`.
    ItalicsStar(Box<ItalicsStar>),
    /// Italics text, wrapped in `_`.
    ItalicsUnderscore(Box<ItalicsUnderscore>),
    /// Bold text, wrapped in `**`.
    Bold(Box<Bold>),
    /// Underline text, wrapped in `__`.
    Underline(Box<Underline>),
    /// Strikethrough text, wrapped in `~~`.
    Strikethrough(Box<Strikethrough>),
    /// Spoiler text, wrapped in `||`.
    Spoiler(Box<Spoiler>),
    /// Inline code block, wrapped in `` ` ``.
    OneLineCode(Box<OneLineCode>),
    /// Multiline code block, wrapped in ```` ``` ````.
    MultiLineCode(Box<MultiLineCode>),
    /// Block quote, preceded by `> `.
    BlockQuote(Box<BlockQuote>),
}

/// Plain text.
#[derive(Debug, Eq, Hash)]
pub struct Plain {
    content: String,
}

/// Italics text, wrapped in `*`.
#[derive(Debug, Eq, Hash)]
pub struct ItalicsStar {
    content: MarkdownElementCollection,
}

/// Italics text, wrapped in `_`.
#[derive(Debug, Eq, Hash)]
pub struct ItalicsUnderscore {
    content: MarkdownElementCollection,
}

/// Bold text, wrapped in `**`.
#[derive(Debug, Eq, Hash)]
pub struct Bold {
    content: MarkdownElementCollection,
}

/// Underline text, wrapped in `__`.
#[derive(Debug, Eq, Hash)]
pub struct Underline {
    content: MarkdownElementCollection,
}

/// Strikethrough text, wrapped in `~~`.
#[derive(Debug, Eq, Hash)]
pub struct Strikethrough {
    content: MarkdownElementCollection,
}

/// Spoiler text, wrapped in `||`.
#[derive(Debug, Eq, Hash)]
pub struct Spoiler {
    content: MarkdownElementCollection,
}

/// Inline code block, wrapped in `` ` ``.
#[derive(Debug, Eq, Hash)]
pub struct OneLineCode {
    content: String,
}

/// Multiline code block, wrapped in ```` ``` ````.
#[derive(Debug, Eq, Hash)]
pub struct MultiLineCode {
    content: String,
    language: Option<String>,
}

/// Block quote, preceded by `> `.
#[derive(Debug, Eq, Hash)]
pub struct BlockQuote {
    content: MarkdownElementCollection,
}

/// The view of an optional string.
pub open spec fn option_text(o: Option<String>) -> Option<Seq<char>> {
    match o {
        Some(s) => Some(s@),
        None => None,
    }
}

/// The node that an element stands for, by recursion over the tree.
spec fn element_node(e: MarkdownElement) -> Node
    decreases e,
{
    match e {
        MarkdownElement::Plain(x) => Node::Plain(x.content@),
        MarkdownElement::ItalicsStar(x) => Node::Styled(
            Style::ItalicsStar,
            elements_nodes(x.content.0@),
        ),
        MarkdownElement::ItalicsUnderscore(x) => Node::Styled(
            Style::ItalicsUnderscore,
            elements_nodes(x.content.0@),
        ),
        MarkdownElement::Bold(x) => Node::Styled(Style::Bold, elements_nodes(x.content.0@)),
        MarkdownElement::Underline(x) => Node::Styled(
            Style::Underline,
            elements_nodes(x.content.0@),
        ),
        MarkdownElement::Strikethrough(x) => Node::Styled(
            Style::Strikethrough,
            elements_nodes(x.content.0@),
        ),
        MarkdownElement::Spoiler(x) => Node::Styled(Style::Spoiler, elements_nodes(x.content.0@)),
        MarkdownElement::OneLineCode(x) => Node::OneLineCode(x.content@),
        MarkdownElement::MultiLineCode(x) => Node::MultiLineCode(
            x.content@,
            option_text(x.language),
        ),
        MarkdownElement::BlockQuote(x) => Node::BlockQuote(elements_nodes(x.content.0@)),
    }
}

/// The nodes that a sequence of elements stands for, in order.
spec fn elements_nodes(s: Seq<MarkdownElement>) -> Seq<Node>
    decreases s,
{
    if s.len() == 0 {
        Seq::empty()
    } else {
        elements_nodes(s.drop_last()).push(element_node(s.last()))
    }
}

/// The views of a sequence of elements, in order.
pub open spec fn nodes_of(s: Seq<MarkdownElement>) -> Seq<Node> {
    Seq::new(s.len(), |i: int| s[i]@)
}

impl View for MarkdownDocument {
    type V = Seq<Node>;

    closed spec fn view(&self) -> Seq<Node> {
        self.content@
    }
}

impl View for MarkdownElementCollection {
    type V = Seq<Node>;

    closed spec fn view(&self) -> Seq<Node> {
        elements_nodes(self.0@)
    }
}

impl View for MarkdownElement {
    type V = Node;

    open spec fn view(&self) -> Node {
        match self {
            MarkdownElement::Plain(x) => x@,
            MarkdownElement::ItalicsStar(x) => x@,
            MarkdownElement::ItalicsUnderscore(x) => x@,
            MarkdownElement::Bold(x) => x@,
            MarkdownElement::Underline(x) => x@,
            MarkdownElement::Strikethrough(x) => x@,
            MarkdownElement::Spoiler(x) => x@,
            MarkdownElement::OneLineCode(x) => x@,
            MarkdownElement::MultiLineCode(x) => x@,
            MarkdownElement::BlockQuote(x) => x@,
        }
    }
}

impl View for Plain {
    type V = Node;

    closed spec fn view(&self) -> Node {
        Node::Plain(self.content@)
    }
}

impl View for ItalicsStar {
    type V = Node;

    closed spec fn view(&self) -> Node {
        Node::Styled(Style::ItalicsStar, self.content@)
    }
}

impl View for ItalicsUnderscore {
    type V = Node;

    closed spec fn view(&self) -> Node {
        Node::Styled(Style::ItalicsUnderscore, self.content@)
    }
}

impl View for Bold {
    type V = Node;

    closed spec fn view(&self) -> Node {
        Node::Styled(Style::Bold, self.content@)
    }
}

impl View for Underline {
    type V = Node;

    closed spec fn view(&self) -> Node {
        Node::Styled(Style::Underline, self.content@)
    }
}

impl View for Strikethrough {
    type V = Node;

    closed spec fn view(&self) -> Node {
        Node::Styled(Style::Strikethrough, self.content@)
    }
}

impl View for Spoiler {
    type V = Node;

    closed spec fn view(&self) -> Node {
        Node::Styled(Style::Spoiler, self.content@)
    }
}

impl View for OneLineCode {
    type V = Node;

    closed spec fn view(&self) -> Node {
        Node::OneLineCode(self.content@)
    }
}

impl View for MultiLineCode {
    type V = Node;

    closed spec fn view(&self) -> Node {
        Node::MultiLineCode(self.content@, option_text(self.language))
    }
}

impl View for BlockQuote {
    type V = Node;

    closed spec fn view(&self) -> Node {
        Node::BlockQuote(self.content@)
    }
}

/// The view of a collection is made of the views of its elements.
proof fn lemma_elements_nodes(s: Seq<MarkdownElement>)
    ensures
        elements_nodes(s) == nodes_of(s),
    decreases s.len(),
{
    if s.len() > 0 {
        lemma_elements_nodes(s.drop_last());
        assert(element_node(s.last()) == s.last()@);
    }
    assert(elements_nodes(s) =~= nodes_of(s));
}

/// Whether two optional strings hold the same text, or both none.
fn same_option(a: &Option<String>, b: &Option<String>) -> (r: bool)
    ensures
        r == (option_text(*a) == option_text(*b)),
{
    match a {
        Some(x) => match b {
            Some(y) => *x == *y,
            None => false,
        },
        None => match b {
            Some(_) => false,
            None => true,
        },
    }
}

/// Whether two elements stand for the same node.
fn same_element(a: &MarkdownElement, b: &MarkdownElement) -> (r: bool)
    ensures
        r == (element_node(*a) == element_node(*b)),
    decreases element_node(*a), 1int,
{
    match a {
        MarkdownElement::Plain(x) => match b {
            MarkdownElement::Plain(y) => x.content == y.content,
            _ => false,
        },
        MarkdownElement::ItalicsStar(x) => match b {
            MarkdownElement::ItalicsStar(y) => {
                assert(elements_nodes(x.content.0@) == element_node(*a)->Styled_1);
                same_elements(&x.content.0, &y.content.0)
            },
            _ => false,
        },
        MarkdownElement::ItalicsUnderscore(x) => match b {
            MarkdownElement::ItalicsUnderscore(y) => {
                assert(elements_nodes(x.content.0@) == element_node(*a)->Styled_1);
                same_elements(&x.content.0, &y.content.0)
            },
            _ => false,
        },
        MarkdownElement::Bold(x) => match b {
            MarkdownElement::Bold(y) => {
                assert(elements_nodes(x.content.0@) == element_node(*a)->Styled_1);
                same_elements(&x.content.0, &y.content.0)
            },
            _ => false,
        },
        MarkdownElement::Underline(x) => match b {
            MarkdownElement::Underline(y) => {
                assert(elements_nodes(x.content.0@) == element_node(*a)->Styled_1);
                same_elements(&x.content.0, &y.content.0)
            },
            _ => false,
        },
        MarkdownElement::Strikethrough(x) => match b {
            MarkdownElement::Strikethrough(y) => {
                assert(elements_nodes(x.content.0@) == element_node(*a)->Styled_1);
                same_elements(&x.content.0, &y.content.0)
            },
            _ => false,
        },
        MarkdownElement::Spoiler(x) => match b {
            MarkdownElement::Spoiler(y) => {
                assert(elements_nodes(x.content.0@) == element_node(*a)->Styled_1);
                same_elements(&x.content.0, &y.content.0)
            },
            _ => false,
        },
        MarkdownElement::BlockQuote(x) => match b {
            MarkdownElement::BlockQuote(y) => {
                assert(elements_nodes(x.content.0@) == element_node(*a)->BlockQuote_0);
                same_elements(&x.content.0, &y.content.0)
            },
            _ => false,
        },
        MarkdownElement::OneLineCode(x) => match b {
            MarkdownElement::OneLineCode(y) => x.content == y.content,
            _ => false,
        },
        MarkdownElement::MultiLineCode(x) => match b {
            MarkdownElement::MultiLineCode(y) => x.content == y.content && same_option(
                &x.language,
                &y.language,
            ),
            _ => false,
        },
    }
}

/// Whether two vectors of elements stand for the same nodes in the same order.
fn same_elements(a: &Vec<MarkdownElement>, b: &Vec<MarkdownElement>) -> (r: bool)
    ensures
        r == (elements_nodes(a@) == elements_nodes(b@)),
    decreases elements_nodes(a@), 0int,
{
    proof {
        lemma_elements_nodes(a@);
        lemma_elements_nodes(b@);
    }
    assert(nodes_of(a@).len() == a.len() && nodes_of(b@).len() == b.len());
    if a.len() != b.len() {
        return false;
    }
    let mut i: usize = 0;
    while i < a.len()
        invariant
            i <= a.len() == b.len(),
            elements_nodes(a@) == nodes_of(a@),
            elements_nodes(b@) == nodes_of(b@),
            forall|j: int| 0 <= j < i ==> a@[j]@ == b@[j]@,
        decreases a.len() - i,
    {
        assert(element_node(a@[i as int]) == nodes_of(a@)[i as int]);
        assert(element_node(b@[i as int]) == nodes_of(b@)[i as int]);
        if !same_element(&a[i], &b[i]) {
            return false;
        }
        i += 1;
    }
    assert(nodes_of(a@) =~= nodes_of(b@));
    true
}

impl PartialEq for MarkdownDocument {
    /// Two values are equal when they have the same view.
    fn eq(&self, other: &Self) -> (r: bool) {
        same_elements(&self.content.0, &other.content.0)
    }
}

impl PartialEqSpecImpl for MarkdownDocument {
    open spec fn obeys_eq_spec() -> bool {
        true
    }

    open spec fn eq_spec(&self, other: &Self) -> bool {
        self@ == other@
    }
}

impl PartialEq for MarkdownElementCollection {
    /// Two values are equal when they have the same view.
    fn eq(&self, other: &Self) -> (r: bool) {
        same_elements(&self.0, &other.0)
    }
}

impl PartialEqSpecImpl for MarkdownElementCollection {
    open spec fn obeys_eq_spec() -> bool {
        true
    }

    open spec fn eq_spec(&self, other: &Self) -> bool {
        self@ == other@
    }
}

impl PartialEq for MarkdownElement {
    /// Two values are equal when they have the same view.
    fn eq(&self, other: &Self) -> (r: bool) {
        same_element(self, other)
    }
}

impl PartialEqSpecImpl for MarkdownElement {
    open spec fn obeys_eq_spec() -> bool {
        true
    }

    open spec fn eq_spec(&self, other: &Self) -> bool {
        self@ == other@
    }
}

impl PartialEq for Plain {
    /// Two values are equal when they have the same view.
    fn eq(&self, other: &Self) -> (r: bool) {
        self.content == other.content
    }
}

impl PartialEqSpecImpl for Plain {
    open spec fn obeys_eq_spec() -> bool {
        true
    }

    open spec fn eq_spec(&self, other: &Self) -> bool {
        self@ == other@
    }
}

impl PartialEq for ItalicsStar {
    /// Two values are equal when they have the same view.
    fn eq(&self, other: &Self) -> (r: bool) {
        same_elements(&self.content.0, &other.content.0)
    }
}

impl PartialEqSpecImpl for ItalicsStar {
    open spec fn obeys_eq_spec() -> bool {
        true
    }

    open spec fn eq_spec(&self, other: &Self) -> bool {
        self@ == other@
    }
}

impl PartialEq for ItalicsUnderscore {
    /// Two values are equal when they have the same view.
    fn eq(&self, other: &Self) -> (r: bool) {
        same_elements(&self.content.0, &other.content.0)
    }
}

impl PartialEqSpecImpl for ItalicsUnderscore {
    open spec fn obeys_eq_spec() -> bool {
        true
    }

    open spec fn eq_spec(&self, other: &Self) -> bool {
        self@ == other@
    }
}

impl PartialEq for Bold {
    /// Two values are equal when they have the same view.
    fn eq(&self, other: &Self) -> (r: bool) {
        same_elements(&self.content.0, &other.content.0)
    }
}

impl PartialEqSpecImpl for Bold {
    open spec fn obeys_eq_spec() -> bool {
        true
    }

    open spec fn eq_spec(&self, other: &Self) -> bool {
        self@ == other@
    }
}

impl PartialEq for Underline {
    /// Two values are equal when they have the same view.
    fn eq(&self, other: &Self) -> (r: bool) {
        same_elements(&self.content.0, &other.content.0)
    }
}

impl PartialEqSpecImpl for Underline {
    open spec fn obeys_eq_spec() -> bool {
        true
    }

    open spec fn eq_spec(&self, other: &Self) -> bool {
        self@ == other@
    }
}

impl PartialEq for Strikethrough {
    /// Two values are equal when they have the same view.
    fn eq(&self, other: &Self) -> (r: bool) {
        same_elements(&self.content.0, &other.content.0)
    }
}

impl PartialEqSpecImpl for Strikethrough {
    open spec fn obeys_eq_spec() -> bool {
        true
    }

    open spec fn eq_spec(&self, other: &Self) -> bool {
        self@ == other@
    }
}

impl PartialEq for Spoiler {
    /// Two values are equal when they have the same view.
    fn eq(&self, other: &Self) -> (r: bool) {
        same_elements(&self.content.0, &other.content.0)
    }
}

impl PartialEqSpecImpl for Spoiler {
    open spec fn obeys_eq_spec() -> bool {
        true
    }

    open spec fn eq_spec(&self, other: &Self) -> bool {
        self@ == other@
    }
}

impl PartialEq for OneLineCode {
    /// Two values are equal when they have the same view.
    fn eq(&self, other: &Self) -> (r: bool) {
        self.content == other.content
    }
}

impl PartialEqSpecImpl for OneLineCode {
    open spec fn obeys_eq_spec() -> bool {
        true
    }

    open spec fn eq_spec(&self, other: &Self) -> bool {
        self@ == other@
    }
}

impl PartialEq for MultiLineCode {
    /// Two values are equal when they have the same view.
    fn eq(&self, other: &Self) -> (r: bool) {
        self.content == other.content && same_option(&self.language, &other.language)
    }
}

impl PartialEqSpecImpl for MultiLineCode {
    open spec fn obeys_eq_spec() -> bool {
        true
    }

    open spec fn eq_spec(&self, other: &Self) -> bool {
        self@ == other@
    }
}

impl PartialEq for BlockQuote {
    /// Two values are equal when they have the same view.
    fn eq(&self, other: &Self) -> (r: bool) {
        same_elements(&self.content.0, &other.content.0)
    }
}

impl PartialEqSpecImpl for BlockQuote {
    open spec fn obeys_eq_spec() -> bool {
        true
    }

    open spec fn eq_spec(&self, other: &Self) -> bool {
        self@ == other@
    }
}

impl MarkdownDocument {
    /// Creates a markdown document.
    pub fn new<T: Into<MarkdownElementCollection>>(content: T) -> (r: Self)
        ensures
            exists|c: MarkdownElementCollection| #[trigger]
                call_ensures(T::into, (content,), c) && r@ == c@,
    {
        Self { content: content.into() }
    }

    /// Returns the content of the markdown document.
    pub fn content(&self) -> (r: &MarkdownElementCollection)
        ensures
            r@ == self@,
    {
        &self.content
    }
}

impl Default for MarkdownDocument {
    fn default() -> (r: Self)
        ensures
            r@ == Seq::<Node>::empty(),
    {
        Self { content: MarkdownElementCollection::new(Vec::new()) }
    }
}

impl MarkdownElementCollection {
    /// Creates a collection of markdown element.
    pub fn new(value: Vec<MarkdownElement>) -> (r: Self)
        ensures
            r@ == nodes_of(value@),
    {
        proof {
            lemma_elements_nodes(value@);
        }
        Self(value)
    }

    /// Returns the collection of markdown element in [`Vec`].
    pub fn get(&self) -> (r: &Vec<MarkdownElement>)
        ensures
            nodes_of(r@) == self@,
    {
        proof {
            lemma_elements_nodes(self.0@);
        }
        &self.0
    }
}

impl IntoIterator for MarkdownElementCollection {
    type Item = MarkdownElement;

    type IntoIter = std::vec::IntoIter<MarkdownElement>;

    /// Hands out the elements of the collection, in order.
    fn into_iter(self) -> (r: std::vec::IntoIter<MarkdownElement>)
        ensures
            nodes_of(r.remaining()) == self@,
    {
        proof {
            lemma_elements_nodes(self.0@);
        }
        self.0.into_iter()
    }
}

impl Default for MarkdownElementCollection {
    fn default() -> (r: Self)
        ensures
            r@ == Seq::<Node>::empty(),
    {
        MarkdownElementCollection::new(Vec::new())
    }
}

impl From<Vec<MarkdownElement>> for MarkdownElementCollection {
    fn from(value: Vec<MarkdownElement>) -> (r: Self)
        ensures
            r@ == nodes_of(value@),
    {
        MarkdownElementCollection::new(value)
    }
}

impl FromSpecImpl<Vec<MarkdownElement>> for MarkdownElementCollection {
    open spec fn obeys_from_spec() -> bool {
        false
    }

    open spec fn from_spec(v: Vec<MarkdownElement>) -> Self {
        arbitrary()
    }
}

impl From<MarkdownElementCollection> for Vec<MarkdownElement> {
    fn from(value: MarkdownElementCollection) -> (r: Self)
        ensures
            nodes_of(r@) == value@,
    {
        proof {
            lemma_elements_nodes(value.0@);
        }
        value.0
    }
}

impl FromSpecImpl<MarkdownElementCollection> for Vec<MarkdownElement> {
    open spec fn obeys_from_spec() -> bool {
        false
    }

    open spec fn from_spec(v: MarkdownElementCollection) -> Self {
        arbitrary()
    }
}

impl From<MarkdownElement> for MarkdownElementCollection {
    fn from(value: MarkdownElement) -> (r: Self)
        ensures
            r@ == seq![value@],
    {
        let mut elements: Vec<MarkdownElement> = Vec::new();
        elements.push(value);
        let r = MarkdownElementCollection::new(elements);
        assert(r@ =~= seq![value@]);
        r
    }
}

impl FromSpecImpl<MarkdownElement> for MarkdownElementCollection {
    open spec fn obeys_from_spec() -> bool {
        false
    }

    open spec fn from_spec(v: MarkdownElement) -> Self {
        arbitrary()
    }
}

impl From<&str> for MarkdownElementCollection {
    fn from(value: &str) -> (r: Self)
        ensures
            r@ == seq![Node::Plain(value@)],
    {
        MarkdownElementCollection::from(MarkdownElement::Plain(Box::new(Plain::new(value))))
    }
}

impl FromSpecImpl<&str> for MarkdownElementCollection {
    open spec fn obeys_from_spec() -> bool {
        false
    }

    open spec fn from_spec(v: &str) -> Self {
        arbitrary()
    }
}

impl From<String> for MarkdownElementCollection {
    fn from(value: String) -> (r: Self)
        ensures
            r@ == seq![Node::Plain(value@)],
    {
        MarkdownElementCollection::from(MarkdownElement::Plain(Box::new(Plain::new(value))))
    }
}

impl FromSpecImpl<String> for MarkdownElementCollection {
    open spec fn obeys_from_spec() -> bool {
        false
    }

    open spec fn from_spec(v: String) -> Self {
        arbitrary()
    }
}

impl From<&String> for MarkdownElementCollection {
    fn from(value: &String) -> (r: Self)
        ensures
            r@ == seq![Node::Plain(value@)],
    {
        MarkdownElementCollection::from(MarkdownElement::Plain(Box::new(Plain::new(value))))
    }
}

impl FromSpecImpl<&String> for MarkdownElementCollection {
    open spec fn obeys_from_spec() -> bool {
        false
    }

    open spec fn from_spec(v: &String) -> Self {
        arbitrary()
    }
}

impl Plain {
    /// Creates plain text.
    pub fn new<T: Into<String>>(content: T) -> (r: Self)
        ensures
            exists|s: String| #[trigger] call_ensures(T::into, (content,), s) && r@ == Node::Plain(s@),
    {
        Self { content: content.into() }
    }

    /// Returns the content of plain text.
    pub fn content(&self) -> (r: &str)
        ensures
            self@ == Node::Plain(r@),
    {
        self.content.as_str()
    }
}

impl ItalicsStar {
    /// Creates italics text wrapped in `*`.
    pub fn new<T: Into<MarkdownElementCollection>>(content: T) -> (r: Self)
        ensures
            exists|c: MarkdownElementCollection| #[trigger]
                call_ensures(T::into, (content,), c) && r@ == Node::Styled(Style::ItalicsStar, c@),
    {
        Self { content: content.into() }
    }

    /// Returns the content of italics text.
    pub fn content(&self) -> (r: &MarkdownElementCollection)
        ensures
            self@ == Node::Styled(Style::ItalicsStar, r@),
    {
        &self.content
    }
}

impl ItalicsUnderscore {
    /// Creates italics text wrapped in `_`.
    pub fn new<T: Into<MarkdownElementCollection>>(content: T) -> (r: Self)
        ensures
            exists|c: MarkdownElementCollection| #[trigger]
                call_ensures(T::into, (content,), c) && r@ == Node::Styled(Style::ItalicsUnderscore, c@),
    {
        Self { content: content.into() }
    }

    /// Returns the content of italics text.
    pub fn content(&self) -> (r: &MarkdownElementCollection)
        ensures
            self@ == Node::Styled(Style::ItalicsUnderscore, r@),
    {
        &self.content
    }
}

impl Bold {
    /// Creates bold text.
    pub fn new<T: Into<MarkdownElementCollection>>(content: T) -> (r: Self)
        ensures
            exists|c: MarkdownElementCollection| #[trigger]
                call_ensures(T::into, (content,), c) && r@ == Node::Styled(Style::Bold, c@),
    {
        Self { content: content.into() }
    }

    /// Returns the content of bold text.
    pub fn content(&self) -> (r: &MarkdownElementCollection)
        ensures
            self@ == Node::Styled(Style::Bold, r@),
    {
        &self.content
    }
}

impl Underline {
    /// Creates underline text.
    pub fn new<T: Into<MarkdownElementCollection>>(content: T) -> (r: Self)
        ensures
            exists|c: MarkdownElementCollection| #[trigger]
                call_ensures(T::into, (content,), c) && r@ == Node::Styled(Style::Underline, c@),
    {
        Self { content: content.into() }
    }

    /// Returns the content of underline text.
    pub fn content(&self) -> (r: &MarkdownElementCollection)
        ensures
            self@ == Node::Styled(Style::Underline, r@),
    {
        &self.content
    }
}

impl Strikethrough {
    /// Creates strikethrough text.
    pub fn new<T: Into<MarkdownElementCollection>>(content: T) -> (r: Self)
        ensures
            exists|c: MarkdownElementCollection| #[trigger]
                call_ensures(T::into, (content,), c) && r@ == Node::Styled(Style::Strikethrough, c@),
    {
        Self { content: content.into() }
    }

    /// Returns the content of strikethrough text.
    pub fn content(&self) -> (r: &MarkdownElementCollection)
        ensures
            self@ == Node::Styled(Style::Strikethrough, r@),
    {
        &self.content
    }
}

impl Spoiler {
    /// Creates spoiler text.
    pub fn new<T: Into<MarkdownElementCollection>>(content: T) -> (r: Self)
        ensures
            exists|c: MarkdownElementCollection| #[trigger]
                call_ensures(T::into, (content,), c) && r@ == Node::Styled(Style::Spoiler, c@),
    {
        Self { content: content.into() }
    }

    /// Returns the content of spoiler text.
    pub fn content(&self) -> (r: &MarkdownElementCollection)
        ensures
            self@ == Node::Styled(Style::Spoiler, r@),
    {
        &self.content
    }
}

impl OneLineCode {
    /// Creates an inline code block.
    pub fn new<T: Into<String>>(content: T) -> (r: Self)
        ensures
            exists|s: String| #[trigger]
                call_ensures(T::into, (content,), s) && r@ == Node::OneLineCode(s@),
    {
        Self { content: content.into() }
    }

    /// Returns the content of the code block.
    pub fn content(&self) -> (r: &str)
        ensures
            self@ == Node::OneLineCode(r@),
    {
        self.content.as_str()
    }
}

impl MultiLineCode {
    /// Creates a multiline code block.
    pub fn new<T: Into<String>>(content: T, language: Option<String>) -> (r: Self)
        ensures
            exists|s: String| #[trigger]
                call_ensures(T::into, (content,), s) && r@ == Node::MultiLineCode(
                    s@,
                    option_text(language),
                ),
    {
        Self { content: content.into(), language }
    }

    /// Returns the content of the code block.
    pub fn content(&self) -> (r: &str)
        ensures
            self@ matches Node::MultiLineCode(c, _) && c == r@,
    {
        self.content.as_str()
    }

    /// Returns the language of the code block.
    pub fn language(&self) -> (r: Option<&str>)
        ensures
            self@ matches Node::MultiLineCode(_, l) && match r {
                Some(s) => l == Some(s@),
                None => l is None,
            },
    {
        match &self.language {
            Some(s) => Some(s.as_str()),
            None => None,
        }
    }
}

impl BlockQuote {
    /// Creates a block quote text.
    pub fn new<T: Into<MarkdownElementCollection>>(content: T) -> (r: Self)
        ensures
            exists|c: MarkdownElementCollection| #[trigger]
                call_ensures(T::into, (content,), c) && r@ == Node::BlockQuote(c@),
    {
        Self { content: content.into() }
    }

    /// Returns the content of the block quote text.
    pub fn content(&self) -> (r: &MarkdownElementCollection)
        ensures
            self@ == Node::BlockQuote(r@),
    {
        &self.content
    }
}

impl From<Plain> for MarkdownElement {
    fn from(value: Plain) -> (r: Self)
        ensures
            r@ == value@,
    {
        MarkdownElement::Plain(Box::new(value))
    }
}

impl FromSpecImpl<Plain> for MarkdownElement {
    open spec fn obeys_from_spec() -> bool {
        false
    }

    open spec fn from_spec(v: Plain) -> Self {
        arbitrary()
    }
}

impl From<ItalicsStar> for MarkdownElement {
    fn from(value: ItalicsStar) -> (r: Self)
        ensures
            r@ == value@,
    {
        MarkdownElement::ItalicsStar(Box::new(value))
    }
}

impl FromSpecImpl<ItalicsStar> for MarkdownElement {
    open spec fn obeys_from_spec() -> bool {
        false
    }

    open spec fn from_spec(v: ItalicsStar) -> Self {
        arbitrary()
    }
}

impl From<ItalicsUnderscore> for MarkdownElement {
    fn from(value: ItalicsUnderscore) -> (r: Self)
        ensures
            r@ == value@,
    {
        MarkdownElement::ItalicsUnderscore(Box::new(value))
    }
}

impl FromSpecImpl<ItalicsUnderscore> for MarkdownElement {
    open spec fn obeys_from_spec() -> bool {
        false
    }

    open spec fn from_spec(v: ItalicsUnderscore) -> Self {
        arbitrary()
    }
}

impl From<Bold> for MarkdownElement {
    fn from(value: Bold) -> (r: Self)
        ensures
            r@ == value@,
    {
        MarkdownElement::Bold(Box::new(value))
    }
}

impl FromSpecImpl<Bold> for MarkdownElement {
    open spec fn obeys_from_spec() -> bool {
        false
    }

    open spec fn from_spec(v: Bold) -> Self {
        arbitrary()
    }
}

impl From<Underline> for MarkdownElement {
    fn from(value: Underline) -> (r: Self)
        ensures
            r@ == value@,
    {
        MarkdownElement::Underline(Box::new(value))
    }
}

impl FromSpecImpl<Underline> for MarkdownElement {
    open spec fn obeys_from_spec() -> bool {
        false
    }

    open spec fn from_spec(v: Underline) -> Self {
        arbitrary()
    }
}

impl From<Strikethrough> for MarkdownElement {
    fn from(value: Strikethrough) -> (r: Self)
        ensures
            r@ == value@,
    {
        MarkdownElement::Strikethrough(Box::new(value))
    }
}

impl FromSpecImpl<Strikethrough> for MarkdownElement {
    open spec fn obeys_from_spec() -> bool {
        false
    }

    open spec fn from_spec(v: Strikethrough) -> Self {
        arbitrary()
    }
}

impl From<Spoiler> for MarkdownElement {
    fn from(value: Spoiler) -> (r: Self)
        ensures
            r@ == value@,
    {
        MarkdownElement::Spoiler(Box::new(value))
    }
}

impl FromSpecImpl<Spoiler> for MarkdownElement {
    open spec fn obeys_from_spec() -> bool {
        false
    }

    open spec fn from_spec(v: Spoiler) -> Self {
        arbitrary()
    }
}

impl From<OneLineCode> for MarkdownElement {
    fn from(value: OneLineCode) -> (r: Self)
        ensures
            r@ == value@,
    {
        MarkdownElement::OneLineCode(Box::new(value))
    }
}

impl FromSpecImpl<OneLineCode> for MarkdownElement {
    open spec fn obeys_from_spec() -> bool {
        false
    }

    open spec fn from_spec(v: OneLineCode) -> Self {
        arbitrary()
    }
}

impl From<MultiLineCode> for MarkdownElement {
    fn from(value: MultiLineCode) -> (r: Self)
        ensures
            r@ == value@,
    {
        MarkdownElement::MultiLineCode(Box::new(value))
    }
}

impl FromSpecImpl<MultiLineCode> for MarkdownElement {
    open spec fn obeys_from_spec() -> bool {
        false
    }

    open spec fn from_spec(v: MultiLineCode) -> Self {
        arbitrary()
    }
}

impl From<BlockQuote> for MarkdownElement {
    fn from(value: BlockQuote) -> (r: Self)
        ensures
            r@ == value@,
    {
        MarkdownElement::BlockQuote(Box::new(value))
    }
}

impl FromSpecImpl<BlockQuote> for MarkdownElement {
    open spec fn obeys_from_spec() -> bool {
        false
    }

    open spec fn from_spec(v: BlockQuote) -> Self {
        arbitrary()
    }
}

/// What [`String::from`] returns for a string slice: `From<&str> for String`
/// copies the slice into a new string, so both hold the same characters.
pub assume_specification<'a, 'b>[ <String as From<&'a str>>::from ](s: &'b str) -> (r: String)
    ensures
        r@ == s@,
;

/// The identity conversion `From<T> for T`, which returns its argument unchanged.
pub assume_specification<U>[ <U as From<U>>::from ](t: U) -> (r: U)
    ensures
        r == t,
;

/// What [`String::from`] returns for a borrowed string: `From<&String> for String`
/// clones its argument, so both hold the same characters.
pub assume_specification<'a, 'b>[ <String as From<&'a String>>::from ](s: &'b String) -> (r:
    String)
    ensures
        r@ == s@,
;

} // verus!
