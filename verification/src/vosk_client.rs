//! What is exchanged with the Vosk server.
use vstd::prelude::*;

verus! {

/// The session parameters that the server is given.
#[derive(Debug)]
pub struct Configuration {
    /// Sample rate the audio will be provided at.
    pub sample_rate: i32,
    /// Show time ranges of each word in the transcription.
    pub words: bool,
}

impl Configuration {
    /// A configuration for audio at `sample_rate`. The words are always wanted
    /// with their time ranges.
    pub fn new(sample_rate: i32) -> (config: Self)
        ensures
            config.sample_rate == sample_rate,
            config.words,
    {
        Configuration { sample_rate, words: true }
    }
}

/// One recognised word.
#[derive(Debug, Clone, PartialEq, Eq)]
pub struct WordInfo {
    /// The word itself.
    pub word: String,
    /// When the word starts, counted from the start of the audio.
    pub start: u64,
    /// When the word ends, counted from the start of the audio.
    pub end: u64,
}

/// A recognised word: its text and its time range.
pub struct WordView {
    pub word: Seq<char>,
    pub start: int,
    pub end: int,
}

impl View for WordInfo {
    type V = WordView;

    open spec fn view(&self) -> WordView {
        WordView { word: self.word@, start: self.start as int, end: self.end as int }
    }
}

/// A final transcript of a stretch of speech.
#[derive(Debug, Clone, PartialEq, Eq)]
pub struct Transcript {
    /// The words, in the order in which they were spoken.
    pub result: Vec<WordInfo>,
    /// The words as one text.
    pub text: String,
}

/// The words of a transcript.
pub open spec fn word_views(words: Seq<WordInfo>) -> Seq<WordView> {
    words.map_values(|w: WordInfo| w@)
}

/// No word ends before it starts.
pub open spec fn well_timed(words: Seq<WordView>) -> bool {
    forall|i: int| 0 <= i < words.len() ==> (#[trigger] words[i]).start <= words[i].end
}

/// Whether no word ends before it starts.
pub fn is_well_timed(words: &Vec<WordInfo>) -> (ok: bool)
    ensures
        ok == well_timed(word_views(words@)),
{
    let mut i: usize = 0;
    while i < words.len()
        invariant
            i <= words.len(),
            forall|j: int|
                0 <= j < i ==> (#[trigger] word_views(words@)[j]).start <= word_views(
                    words@,
                )[j].end,
        decreases words.len() - i,
    {
        assert(word_views(words@)[i as int] == words@[i as int]@);
        if words[i].end < words[i].start {
            return false;
        }
        i = i + 1;
    }
    true
}

} // verus!
