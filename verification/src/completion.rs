//! The vocabulary of code completion: what is asked, what is suggested, and
//! the patterns by which a line of code is recognised.

use serde_json::Value;
use std::time::Instant;
use vstd::prelude::*;

verus! {

/// A place in a text document. Lines and columns count from zero.
#[derive(Debug, Clone, Copy, PartialEq, Eq, Structural)]
pub struct Position {
    pub line: usize,
    pub column: usize,
}

/// A request for completions at the cursor.
#[derive(Debug, Clone)]
pub struct CompletionRequest {
    /// The file being edited.
    pub file_path: String,
    /// The programming language, such as `rust`, `python` or `javascript`.
    pub language: String,
    /// The line the cursor is on.
    pub current_line: String,
    /// Where the cursor is.
    pub cursor_position: Position,
    /// The lines before the current one.
    pub context_before: Vec<String>,
    /// The lines after the current one.
    pub context_after: Vec<String>,
}

/// Where a completion comes from.
#[derive(Debug, Clone, Copy, PartialEq, Eq, Structural)]
pub enum CompletionSource {
    /// A static pattern.
    Static,
    /// A language model.
    Llm,
    /// A backend reached over the Model Context Protocol.
    Mcp,
    /// Retrieval from an index.
    Rag,
}

impl CompletionSource {
    /// The source's name in lower case.
    pub open spec fn label(self) -> Seq<char> {
        match self {
            CompletionSource::Static => "static"@,
            CompletionSource::Llm => "llm"@,
            CompletionSource::Mcp => "mcp"@,
            CompletionSource::Rag => "rag"@,
        }
    }

    /// The source's name in lower case.
    #[allow(clippy::inherent_to_string)]
    pub fn to_string(&self) -> (r: String)
        ensures
            r@ == self.label(),
    {
        match self {
            CompletionSource::Static => "static".to_owned(),
            CompletionSource::Llm => "llm".to_owned(),
            CompletionSource::Mcp => "mcp".to_owned(),
            CompletionSource::Rag => "rag".to_owned(),
        }
    }
}

/// What a line of code is the beginning of.
#[derive(Debug, Clone, Copy, PartialEq, Eq, Structural)]
pub enum Pattern {
    /// A function definition.
    FunctionStart,
    /// An `if` statement.
    IfStatement,
    /// A `for` loop.
    ForLoop,
    /// A `while` loop.
    WhileLoop,
    /// A struct or class definition.
    StructDef,
    /// An `impl` block.
    ImplBlock,
    /// A `match` statement.
    MatchStatement,
    /// Nothing that is recognised.
    Unknown,
}

impl Pattern {
    /// The pattern's name as it is written in this crate.
    pub open spec fn label(self) -> Seq<char> {
        match self {
            Pattern::FunctionStart => "FunctionStart"@,
            Pattern::IfStatement => "IfStatement"@,
            Pattern::ForLoop => "ForLoop"@,
            Pattern::WhileLoop => "WhileLoop"@,
            Pattern::StructDef => "StructDef"@,
            Pattern::ImplBlock => "ImplBlock"@,
            Pattern::MatchStatement => "MatchStatement"@,
            Pattern::Unknown => "Unknown"@,
        }
    }

    /// The pattern's name as it is written in this crate.
    pub fn name(&self) -> (r: String)
        ensures
            r@ == self.label(),
    {
        match self {
            Pattern::FunctionStart => "FunctionStart".to_owned(),
            Pattern::IfStatement => "IfStatement".to_owned(),
            Pattern::ForLoop => "ForLoop".to_owned(),
            Pattern::WhileLoop => "WhileLoop".to_owned(),
            Pattern::StructDef => "StructDef".to_owned(),
            Pattern::ImplBlock => "ImplBlock".to_owned(),
            Pattern::MatchStatement => "MatchStatement".to_owned(),
            Pattern::Unknown => "Unknown".to_owned(),
        }
    }
}

/// Recognises what a line of code is the beginning of, and knows how such a
/// beginning is completed.
pub trait PatternDetector: Send + Sync {
    /// What the line is the beginning of, in the language named.
    fn detect_pattern(&self, line: &str, language: &str) -> Pattern;

    /// The text that completes such a beginning in the language named.
    fn get_template(&self, pattern: Pattern, language: &str) -> Option<String>;
}


/// How sure a provider is of a completion: a score from 0 to 1, held as the
/// bit pattern of its single-precision value. Of two such scores the greater
/// has the greater pattern, so patterns are compared in place of scores.
#[derive(Debug, Clone, Copy, PartialEq, Eq, Structural)]
pub struct Confidence {
    pub bits: u32,
}

/// One suggestion.
#[derive(Debug, Clone)]
pub struct Completion {
    /// The text to insert.
    pub text: String,
    /// How far to move the cursor once the text is in.
    pub cursor_offset: i32,
    /// How sure the provider is.
    pub confidence: Confidence,
    /// Where the suggestion comes from.
    pub source: CompletionSource,
    /// What the provider wishes to add.
    pub metadata: Option<Value>,
}

/// The suggestions for one request.
#[derive(Debug, Clone)]
pub struct CompletionResponse {
    /// The suggestions, the surest first. There may be none.
    pub completions: Vec<Completion>,
    /// How long it took to gather them, in milliseconds.
    pub processing_time_ms: u64,
}

/// Something that suggests completions.
pub trait CompletionProvider: Send + Sync {
    /// The suggestions for a request, or why there are none.
    fn complete(&self, request: &CompletionRequest) -> Result<Vec<Completion>, String>;

    /// What the provider is called.
    fn name(&self) -> &str;

    /// Whether the provider is to be asked. A provider is, unless it says
    /// otherwise.
    fn is_enabled(&self) -> (r: bool)
        default_ensures
            r,
    {
        true
    }
}

/// Where a suggestion goes among suggestions that are in descending order
/// of confidence: behind every one that is at least as sure.
pub open spec fn insertion_point(sorted: Seq<Completion>, bits: u32) -> int
    decreases sorted.len(),
{
    if sorted.len() > 0 && sorted.last().confidence.bits < bits {
        insertion_point(sorted.drop_last(), bits)
    } else {
        sorted.len() as int
    }
}

/// The suggestions in descending order of confidence, those of equal
/// confidence in the order in which they came.
pub open spec fn sorted_by_confidence(all: Seq<Completion>) -> Seq<Completion>
    decreases all.len(),
{
    if all.len() == 0 {
        all
    } else {
        let before = sorted_by_confidence(all.drop_last());
        before.insert(insertion_point(before, all.last().confidence.bits), all.last())
    }
}

/// The suggestions without those that repeat the text of the one kept just
/// before them.
pub open spec fn without_repeats(all: Seq<Completion>) -> Seq<Completion>
    decreases all.len(),
{
    if all.len() == 0 {
        all
    } else {
        let before = without_repeats(all.drop_last());
        if before.len() > 0 && before.last().text@ == all.last().text@ {
            before
        } else {
            before.push(all.last())
        }
    }
}

/// What is made of the suggestions gathered: the surest first, a text that
/// follows itself only once.
pub open spec fn merged(all: Seq<Completion>) -> Seq<Completion> {
    without_repeats(sorted_by_confidence(all))
}

/// Whether the suggestions are in descending order of confidence.
pub open spec fn is_descending(all: Seq<Completion>) -> bool {
    forall|i: int, j: int|
        0 <= i < j < all.len() ==> (#[trigger] all[i]).confidence.bits >= (
        #[trigger] all[j]).confidence.bits
}

proof fn lemma_insertion_point(sorted: Seq<Completion>, bits: u32)
    requires
        is_descending(sorted),
    ensures
        0 <= insertion_point(sorted, bits) <= sorted.len(),
        forall|i: int|
            0 <= i < insertion_point(sorted, bits) ==> (#[trigger] sorted[i]).confidence.bits
                >= bits,
        forall|i: int|
            insertion_point(sorted, bits) <= i < sorted.len() ==> (
            #[trigger] sorted[i]).confidence.bits < bits,
    decreases sorted.len(),
{
    if sorted.len() > 0 && sorted.last().confidence.bits < bits {
        let head = sorted.drop_last();
        assert forall|i: int, j: int| 0 <= i < j < head.len() implies (
        #[trigger] head[i]).confidence.bits >= (#[trigger] head[j]).confidence.bits by {
            assert(head[i] == sorted[i] && head[j] == sorted[j]);
        }
        lemma_insertion_point(head, bits);
        assert forall|i: int| 0 <= i < insertion_point(sorted, bits) implies (
        #[trigger] sorted[i]).confidence.bits >= bits by {
            assert(sorted[i] == head[i]);
        }
        assert forall|i: int| insertion_point(sorted, bits) <= i < sorted.len() implies (
        #[trigger] sorted[i]).confidence.bits < bits by {
            if i < head.len() {
                assert(sorted[i] == head[i]);
            }
        }
    } else {
        assert forall|i: int| 0 <= i < sorted.len() implies (#[trigger] sorted[i]).confidence.bits
            >= bits by {
            if sorted.len() > 0 {
                assert(sorted[sorted.len() - 1] == sorted.last());
                if i < sorted.len() - 1 {
                    assert(sorted[i].confidence.bits >= sorted[sorted.len() - 1].confidence.bits);
                }
            }
        }
    }
}

/// Sorting by confidence rearranges the suggestions, dropping and adding
/// none, and leaves them in descending order.
pub proof fn lemma_sorted_by_confidence(all: Seq<Completion>)
    ensures
        is_descending(sorted_by_confidence(all)),
        sorted_by_confidence(all).to_multiset() == all.to_multiset(),
        sorted_by_confidence(all).len() == all.len(),
    decreases all.len(),
{
    broadcast use vstd::seq_lib::group_to_multiset_ensures;

    if all.len() == 0 {
    } else {
        let head = all.drop_last();
        let item = all.last();
        lemma_sorted_by_confidence(head);
        let before = sorted_by_confidence(head);
        lemma_insertion_point(before, item.confidence.bits);
        let at = insertion_point(before, item.confidence.bits);
        let after = before.insert(at, item);
        assert forall|i: int, j: int| 0 <= i < j < after.len() implies (
        #[trigger] after[i]).confidence.bits >= (#[trigger] after[j]).confidence.bits by {
            if i < at && j > at {
                assert(after[i] == before[i] && after[j] == before[j - 1]);
            } else if i < at && j < at {
                assert(after[i] == before[i] && after[j] == before[j]);
            } else if i > at {
                assert(after[i] == before[i - 1] && after[j] == before[j - 1]);
            } else if i == at {
                assert(after[j] == before[j - 1]);
            } else {
                assert(after[i] == before[i]);
            }
        }
        before.to_multiset_ensures();
        assert(after.to_multiset() =~= before.to_multiset().insert(item)) by {
            vstd::seq_lib::lemma_multiset_commutative(before.subrange(0, at), seq![item]);
            assert(after =~= before.subrange(0, at) + seq![item] + before.subrange(
                at,
                before.len() as int,
            ));
            assert(before =~= before.subrange(0, at) + before.subrange(at, before.len() as int));
            vstd::seq_lib::lemma_multiset_commutative(
                before.subrange(0, at),
                before.subrange(at, before.len() as int),
            );
            vstd::seq_lib::lemma_multiset_commutative(
                before.subrange(0, at) + seq![item],
                before.subrange(at, before.len() as int),
            );
            assert(seq![item].to_multiset() =~= vstd::multiset::Multiset::singleton(item)) by {
                assert(seq![item] =~= Seq::<Completion>::empty().push(item));
                Seq::<Completion>::empty().to_multiset_ensures();
            }
        }
        assert(all =~= head.push(item));
        head.to_multiset_ensures();
    }
}

/// Puts the suggestions gathered in order: the surest first, those of equal
/// confidence as they came; then a suggestion whose text repeats that of the
/// one kept just before it is dropped.
pub fn merge_completions(all: Vec<Completion>) -> (r: Vec<Completion>)
    ensures
        r@ == merged(all@),
{
    let ghost input = all@;
    let count = all.len();
    let mut sorted: Vec<Completion> = Vec::new();
    let mut i: usize = 0;
    for item in it: all.into_iter()
        invariant
            i == it.index(),
            it.seq() == input,
            input.len() == count,
            sorted@ == sorted_by_confidence(input.take(i as int)),
    {
        proof {
            assert(i < input.len());
            assert(input.take(i as int + 1).drop_last() =~= input.take(i as int));
            assert(input.take(i as int + 1).last() == item);
        }
        let mut at: usize = sorted.len();
        assert(sorted@.take(at as int) =~= sorted@);
        while at > 0 && sorted[at - 1].confidence.bits < item.confidence.bits
            invariant
                at <= sorted@.len(),
                insertion_point(sorted@, item.confidence.bits) == insertion_point(
                    sorted@.take(at as int),
                    item.confidence.bits,
                ),
            decreases at,
        {
            proof {
                assert(sorted@.take(at as int).last() == sorted@[at as int - 1]);
                assert(sorted@.take(at as int).drop_last() =~= sorted@.take(at as int - 1));
            }
            at = at - 1;
        }
        proof {
            if at > 0 {
                assert(sorted@.take(at as int).last() == sorted@[at as int - 1]);
            }
            assert(insertion_point(sorted@.take(at as int), item.confidence.bits) == at);
        }
        sorted.insert(at, item);
        i = i + 1;
    }
    assert(input.take(i as int) =~= input);

    let ghost ordered = sorted@;
    let count = sorted.len();
    let mut kept: Vec<Completion> = Vec::new();
    let mut k: usize = 0;
    for item in it: sorted.into_iter()
        invariant
            k == it.index(),
            it.seq() == ordered,
            ordered.len() == count,
            kept@ == without_repeats(ordered.take(k as int)),
    {
        proof {
            assert(k < ordered.len());
            assert(ordered.take(k as int + 1).drop_last() =~= ordered.take(k as int));
            assert(ordered.take(k as int + 1).last() == item);
        }
        let n = kept.len();
        let repeats = n > 0 && crate::text::same_text(
            kept[n - 1].text.as_str(),
            item.text.as_str(),
        );
        if !repeats {
            kept.push(item);
        }
        k = k + 1;
    }
    assert(ordered.take(k as int) =~= ordered);
    kept
}

/// `std::time::Instant`: a moment on the monotonic clock. Nothing inside
/// it is visible here.
#[verifier::external_type_specification]
#[verifier::external_body]
pub struct ExInstant(Instant);

/// `Instant::now`: the present moment. Nothing is claimed of it.
#[verifier::external_body]
fn now() -> Instant {
    Instant::now()
}

/// `Instant::elapsed`, in whole milliseconds: the time since `start`, cut
/// to 64 bits. Nothing is claimed of it.
#[verifier::external_body]
fn millis_since(start: &Instant) -> u64 {
    start.elapsed().as_millis() as u64
}

/// A provider that an engine holds.
struct Registered {
    provider: Box<dyn CompletionProvider>,
}

impl Registered {
    /// The holder of the provider given.
    fn new(provider: Box<dyn CompletionProvider>) -> (r: Self)
        ensures
            r == (Registered { provider }),
    {
        Registered { provider }
    }
}

/// Asks every enabled provider and merges what they suggest.
pub struct CompletionEngine {
    providers: Vec<Registered>,
}

impl CompletionEngine {
    /// How many providers the engine holds.
    pub closed spec fn provider_count(&self) -> nat {
        self.providers@.len()
    }

    /// An engine without providers.
    pub fn new() -> (r: Self)
        ensures
            r.provider_count() == 0,
    {
        CompletionEngine { providers: Vec::new() }
    }

    /// Adds a provider, to be asked after those already there.
    pub fn add_provider(&mut self, provider: Box<dyn CompletionProvider>)
        ensures
            final(self).provider_count() == old(self).provider_count() + 1,
    {
        self.providers.push(Registered::new(provider));
    }

    /// The suggestions of every enabled provider that answers, merged: the
    /// surest first, a text that follows itself only once. A provider that
    /// fails is passed over. The call itself never fails.
    pub fn get_completions(&self, request: &CompletionRequest) -> (r: Result<CompletionResponse, String>)
        ensures
            match r {
                Ok(response) => {
                    &&& exists|gathered: Seq<Completion>|
                        response.completions@ == #[trigger] merged(gathered)
                    &&& self.provider_count() == 0 ==> response.completions@.len() == 0
                },
                Err(_) => false,
            },
    {
        let start = now();
        let mut all: Vec<Completion> = Vec::new();
        let mut i: usize = 0;
        while i < self.providers.len()
            invariant
                i <= self.providers@.len(),
                self.providers@.len() == 0 ==> all@.len() == 0,
            decreases self.providers@.len() - i,
        {
            let provider = &self.providers[i].provider;
            if provider.is_enabled() {
                if let Ok(mut completions) = provider.complete(request) {
                    all.append(&mut completions);
                }
            }
            i = i + 1;
        }
        let ghost gathered = all@;
        let completions = merge_completions(all);
        assert(completions@ == merged(gathered));
        Ok(CompletionResponse { completions, processing_time_ms: millis_since(&start) })
    }
}


impl Default for CompletionEngine {
    fn default() -> (r: Self)
        ensures
            r.provider_count() == 0,
    {
        Self::new()
    }
}

} // verus!
