use vstd::prelude::*;
use vstd::string::*;

verus! {

/// Where the server listens.
#[derive(Clone, Debug)]
pub struct ServerConfig {
    pub host: String,
    pub port: u16,
}

/// Where the speech model's files are.
#[derive(Clone, Debug)]
pub struct TtsConfig {
    pub model: String,
    pub tokens: String,
    pub lexicon: Option<String>,
    pub espeak_ng_data: Option<String>,
}

/// The whole configuration of the server.
#[derive(Clone, Debug)]
pub struct AppConfig {
    pub server: ServerConfig,
    pub tts: TtsConfig,
}

/// Values given at startup, each of which wins over the configuration file.
#[derive(Clone, Debug)]
pub struct ConfigOverrides {
    pub host: Option<String>,
    pub port: Option<u16>,
    pub model: Option<String>,
    pub tokens: Option<String>,
    pub lexicon: Option<String>,
    pub espeak_ng_data: Option<String>,
}

pub const DEFAULT_PORT: u16 = 3001;

/// The built-in configuration: listen on 0.0.0.0:3001, no model files given.
pub open spec fn is_default(c: AppConfig) -> bool {
    &&& c.server.host@ == seq!['0', '.', '0', '.', '0', '.', '0']
    &&& c.server.port == DEFAULT_PORT
    &&& c.tts.model@.len() == 0
    &&& c.tts.tokens@.len() == 0
    &&& (c.tts.lexicon matches Some(l) && l@.len() == 0)
    &&& (c.tts.espeak_ng_data matches Some(d) && d@.len() == 0)
}

/// The value given, else the one already there.
pub open spec fn pick<T>(given: Option<T>, current: T) -> T {
    match given {
        Some(v) => v,
        None => current,
    }
}

/// The file's configuration under the startup values: each value given at
/// startup replaces the file's, every other value is the file's.
pub open spec fn overridden(c: AppConfig, o: ConfigOverrides) -> AppConfig {
    AppConfig {
        server: ServerConfig { host: pick(o.host, c.server.host), port: pick(o.port, c.server.port) },
        tts: TtsConfig {
            model: pick(o.model, c.tts.model),
            tokens: pick(o.tokens, c.tts.tokens),
            lexicon: match o.lexicon {
                Some(v) => Some(v),
                None => c.tts.lexicon,
            },
            espeak_ng_data: match o.espeak_ng_data {
                Some(v) => Some(v),
                None => c.tts.espeak_ng_data,
            },
        },
    }
}

impl Default for AppConfig {
    fn default() -> (r: AppConfig)
        ensures
            is_default(r),
    {
        let mut host = String::new();
        proof {
            reveal_strlit("0.0.0.0");
        }
        host.append("0.0.0.0");
        assert(host@ =~= seq!['0', '.', '0', '.', '0', '.', '0']);
        AppConfig {
            server: ServerConfig { host, port: DEFAULT_PORT },
            tts: TtsConfig {
                model: String::new(),
                tokens: String::new(),
                lexicon: Some(String::new()),
                espeak_ng_data: Some(String::new()),
            },
        }
    }
}

fn take<T>(given: Option<T>, current: T) -> (r: T)
    ensures
        r == pick(given, current),
{
    match given {
        Some(v) => v,
        None => current,
    }
}

fn take_opt<T>(given: Option<T>, current: Option<T>) -> (r: Option<T>)
    ensures
        r == match given {
            Some(v) => Some(v),
            None => current,
        },
{
    match given {
        Some(v) => Some(v),
        None => current,
    }
}

impl AppConfig {
    /// The configuration to start from: the one read from the configuration
    /// file, or the built-in one where no file could be found, read or parsed.
    pub fn load_config(read: Option<AppConfig>) -> (r: AppConfig)
        ensures
            match read {
                Some(c) => r == c,
                None => is_default(r),
            },
    {
        match read {
            Some(c) => c,
            None => AppConfig::default(),
        }
    }

    /// This configuration with the values given at startup put in.
    pub fn apply_overrides(self, o: ConfigOverrides) -> (r: AppConfig)
        ensures
            r == overridden(self, o),
    {
        AppConfig {
            server: ServerConfig {
                host: take(o.host, self.server.host),
                port: take(o.port, self.server.port),
            },
            tts: TtsConfig {
                model: take(o.model, self.tts.model),
                tokens: take(o.tokens, self.tts.tokens),
                lexicon: take_opt(o.lexicon, self.tts.lexicon),
                espeak_ng_data: take_opt(o.espeak_ng_data, self.tts.espeak_ng_data),
            },
        }
    }

    /// Where the configuration file lies under the home directory on the
    /// operating system named `os`, if the server knows a place there.
    pub fn config_relative_path(os: &str) -> (r: Option<String>)
        ensures
            (os@ == "linux"@ || os@ == "macos"@) ==> (r matches Some(p) && p@
                == ".config/onnx-tts-server/config.toml"@),
            os@ == "windows"@ ==> (r matches Some(p) && p@
                == "AppData/Roaming/onnx-tts-server/config.toml"@),
            !(os@ == "linux"@ || os@ == "macos"@ || os@ == "windows"@) ==> r is None,
    {
        proof {
            reveal_strlit("linux");
            reveal_strlit("macos");
            reveal_strlit("windows");
            reveal_strlit(".config/onnx-tts-server/config.toml");
            reveal_strlit("AppData/Roaming/onnx-tts-server/config.toml");
            assert("windows"@.len() != "linux"@.len());
            assert("windows"@[0] != "macos"@[0]);
        }
        if same_text(os, "linux") || same_text(os, "macos") {
            Some(String::from_str(".config/onnx-tts-server/config.toml"))
        } else if same_text(os, "windows") {
            Some(String::from_str("AppData/Roaming/onnx-tts-server/config.toml"))
        } else {
            None
        }
    }
}

/// Whether two texts hold the same characters.
pub fn same_text(a: &str, b: &str) -> (r: bool)
    ensures
        r == (a@ == b@),
{
    let n = a.unicode_len();
    if n != b.unicode_len() {
        return false;
    }
    let mut i: usize = 0;
    while i < n
        invariant
            n == a@.len(),
            n == b@.len(),
            i <= n,
            a@.subrange(0, i as int) == b@.subrange(0, i as int),
        decreases n - i,
    {
        if a.get_char(i) != b.get_char(i) {
            return false;
        }
        assert(a@.subrange(0, i + 1) =~= a@.subrange(0, i as int).push(a@[i as int]));
        assert(b@.subrange(0, i + 1) =~= b@.subrange(0, i as int).push(b@[i as int]));
        i = i + 1;
    }
    assert(a@ =~= a@.subrange(0, n as int));
    assert(b@ =~= b@.subrange(0, n as int));
    true
}

/// Putting the startup values in is done once and for all: putting the same
/// values in a second time changes nothing.
pub proof fn lemma_overrides_idempotent(c: AppConfig, o: ConfigOverrides)
    ensures
        overridden(overridden(c, o), o) == overridden(c, o),
{
}

} // verus!
