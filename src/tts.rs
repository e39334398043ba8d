use crate::config::AppConfig;
use vstd::prelude::*;
use vstd::string::*;

verus! {

/// The files that the speech engine loads. An empty path means that the file
/// is not used.
#[derive(Clone, Debug)]
pub struct EngineFiles {
    pub model: String,
    pub tokens: String,
    pub lexicon: String,
    pub data_dir: String,
}

/// The path of `name` inside the directory `dir`.
pub open spec fn joined(dir: Seq<char>, name: Seq<char>) -> Seq<char> {
    dir.push('/') + name
}

/// The path given, or none.
pub open spec fn path_or_empty(p: Option<String>) -> Seq<char> {
    match p {
        Some(s) => s@,
        None => Seq::empty(),
    }
}

fn join(dir: &str, name: &str) -> (r: String)
    ensures
        r@ == joined(dir@, name@),
{
    let mut s = String::from_str(dir);
    proof {
        reveal_strlit("/");
    }
    s.append("/");
    s.append(name);
    assert(s@ =~= joined(dir@, name@));
    s
}

fn clone_or_empty(p: &Option<String>) -> (r: String)
    ensures
        r@ == path_or_empty(*p),
{
    match p {
        Some(s) => s.clone(),
        None => String::new(),
    }
}

impl EngineFiles {
    /// The files that a configuration names: its model and tokens, and its
    /// lexicon and phonemizer data where it gives them.
    pub fn from_app_config(config: &AppConfig) -> (r: EngineFiles)
        ensures
            r.model@ == config.tts.model@,
            r.tokens@ == config.tts.tokens@,
            r.lexicon@ == path_or_empty(config.tts.lexicon),
            r.data_dir@ == path_or_empty(config.tts.espeak_ng_data),
    {
        EngineFiles {
            model: config.tts.model.clone(),
            tokens: config.tts.tokens.clone(),
            lexicon: clone_or_empty(&config.tts.lexicon),
            data_dir: clone_or_empty(&config.tts.espeak_ng_data),
        }
    }

    /// The layout of a MeloTTS model directory: `model.onnx`, `lexicon.txt`
    /// and `tokens.txt`, with no phonemizer data.
    pub fn melo(dir: &str) -> (r: EngineFiles)
        ensures
            r.model@ == joined(dir@, "model.onnx"@),
            r.lexicon@ == joined(dir@, "lexicon.txt"@),
            r.tokens@ == joined(dir@, "tokens.txt"@),
            r.data_dir@.len() == 0,
    {
        EngineFiles {
            model: join(dir, "model.onnx"),
            tokens: join(dir, "tokens.txt"),
            lexicon: join(dir, "lexicon.txt"),
            data_dir: String::new(),
        }
    }

    /// The layout of a Piper model directory: `model.onnx`, `tokens.txt` and
    /// the `espeak-ng-data` directory, with no lexicon.
    pub fn piper(dir: &str) -> (r: EngineFiles)
        ensures
            r.model@ == joined(dir@, "model.onnx"@),
            r.tokens@ == joined(dir@, "tokens.txt"@),
            r.data_dir@ == joined(dir@, "espeak-ng-data"@),
            r.lexicon@.len() == 0,
    {
        EngineFiles {
            model: join(dir, "model.onnx"),
            tokens: join(dir, "tokens.txt"),
            lexicon: String::new(),
            data_dir: join(dir, "espeak-ng-data"),
        }
    }
}

} // verus!
