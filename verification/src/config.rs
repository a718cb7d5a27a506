//! The configuration of the bots and of the process.

use crate::decimal::parse_unsigned;
use crate::decimal::unsigned;
use crate::directory::Directory;
use crate::text::copy_text;
use vstd::prelude::*;

verus! {

/// The configuration of one bot.
#[derive(Debug)]
pub struct BotConfig {
    pub bot_name: String,
    pub telegram_bot_token: String,
    pub telegram_secret_token: String,
    pub openai_assistant_id: String,
    pub vector_store_id: String,
}

/// The configuration of one bot, mathematically.
pub struct BotConfigView {
    pub bot_name: Seq<char>,
    pub telegram_bot_token: Seq<char>,
    pub telegram_secret_token: Seq<char>,
    pub openai_assistant_id: Seq<char>,
    pub vector_store_id: Seq<char>,
}

impl View for BotConfig {
    type V = BotConfigView;

    open spec fn view(&self) -> BotConfigView {
        BotConfigView {
            bot_name: self.bot_name@,
            telegram_bot_token: self.telegram_bot_token@,
            telegram_secret_token: self.telegram_secret_token@,
            openai_assistant_id: self.openai_assistant_id@,
            vector_store_id: self.vector_store_id@,
        }
    }
}

impl Clone for BotConfig {
    fn clone(&self) -> (r: Self)
        ensures
            r@ == self@,
    {
        BotConfig {
            bot_name: self.bot_name.clone(),
            telegram_bot_token: self.telegram_bot_token.clone(),
            telegram_secret_token: self.telegram_secret_token.clone(),
            openai_assistant_id: self.openai_assistant_id.clone(),
            vector_store_id: self.vector_store_id.clone(),
        }
    }
}

/// The directory that holds the configuration files.
pub const CONFIG_DIR: &'static str = "bot_config";

/// The name of a file with the extension `json`: something, then `.json`.
pub open spec fn config_file_name(name: Seq<u8>) -> bool {
    let dot_json = seq![0x2eu8, 0x6au8, 0x73u8, 0x6fu8, 0x6eu8];
    name.len() > 5 && name.skip(name.len() - 5) == dot_json
}

/// Whether a file of the configuration directory is a configuration file, by
/// the bytes of its name.
pub fn is_config_file(name: &[u8]) -> (r: bool)
    ensures
        r == config_file_name(name@),
{
    let n: usize = name.len();
    if n <= 5 {
        return false;
    }
    let r = name[n - 5] == 0x2e && name[n - 4] == 0x6a && name[n - 3] == 0x73 && name[n - 2]
        == 0x6f && name[n - 1] == 0x6e;
    proof {
        let end = name@.skip(n - 5);
        let dot_json = seq![0x2eu8, 0x6au8, 0x73u8, 0x6fu8, 0x6eu8];
        if r {
            assert(end =~= dot_json);
        } else if end == dot_json {
            assert(end[0] == 0x2e && end[1] == 0x6a && end[2] == 0x73 && end[3] == 0x6f && end[4]
                == 0x6e);
        }
    }
    r
}

/// The bots that a list of configurations makes: each stands under its name,
/// and of two with one name the later counts.
pub open spec fn bots_of(configs: Seq<BotConfig>) -> Map<Seq<char>, BotConfig>
    decreases configs.len(),
{
    if configs.len() == 0 {
        Map::empty()
    } else {
        bots_of(configs.drop_last()).insert(configs.last().bot_name@, configs.last())
    }
}

/// A bot is found under its name, unless a later configuration has that name.
pub proof fn last_configuration_counts(configs: Seq<BotConfig>, i: int)
    requires
        0 <= i < configs.len(),
        forall|j: int| i < j < configs.len() ==> configs[j].bot_name@ != configs[i].bot_name@,
    ensures
        bots_of(configs).contains_key(configs[i].bot_name@),
        bots_of(configs)[configs[i].bot_name@] == configs[i],
    decreases configs.len(),
{
    if i < configs.len() - 1 {
        last_configuration_counts(configs.drop_last(), i);
    }
}

/// Each bot stands under its own name.
pub proof fn bots_stand_under_their_names(configs: Seq<BotConfig>, name: Seq<char>)
    requires
        bots_of(configs).contains_key(name),
    ensures
        bots_of(configs)[name].bot_name@ == name,
    decreases configs.len(),
{
    if configs.len() > 0 && configs.last().bot_name@ != name {
        bots_stand_under_their_names(configs.drop_last(), name);
    }
}

/// Makes the table of the bots from the configurations that were read, in the
/// order in which they were read.
pub fn load_bot_configs(configs: Vec<BotConfig>) -> (r: Directory<BotConfig>)
    ensures
        r@ == bots_of(configs@),
{
    let ghost all = configs@;
    let mut r: Directory<BotConfig> = Directory::new();
    for config in it: configs
        invariant
            it.seq() == all,
            r@ == bots_of(all.take(it.index() as int)),
    {
        let ghost i = it.index() as int;
        assert(all.take(i + 1).drop_last() =~= all.take(i));
        assert(all.take(i + 1).last() == config);
        let name = config.bot_name.clone();
        r.insert(name, config);
    }
    assert(all.take(all.len() as int) =~= all);
    r
}

/// Enters the file names of a bot, where they could be loaded.
pub fn record_file_names(
    files: &mut Directory<Vec<String>>,
    bot_name: &str,
    loaded: Option<Vec<String>>,
)
    ensures
        final(files)@ == match loaded {
            Some(names) => old(files)@.insert(bot_name@, names),
            None => old(files)@,
        },
{
    if let Some(names) = loaded {
        files.insert(copy_text(bot_name), names);
    }
}

/// The directory for data where none is set.
pub const DEFAULT_DATA_DIR: &'static str = "./data";

/// The directory for data, from the value of `DATA_DIR`.
pub fn data_dir(set: Option<String>) -> (r: String)
    ensures
        r@ == match set {
            Some(dir) => dir@,
            None => DEFAULT_DATA_DIR@,
        },
{
    match set {
        Some(dir) => dir,
        None => copy_text(DEFAULT_DATA_DIR),
    }
}

/// The port where none is set.
pub const DEFAULT_PORT: u16 = 8080;

/// The port to listen on, from the value of `PORT`; `None` where that is no port
/// number.
pub fn port(set: Option<&str>) -> (r: Option<u16>)
    ensures
        match set {
            Some(s) => match r {
                Some(p) => unsigned(s@, u16::MAX as int) == Some(p as int),
                None => unsigned(s@, u16::MAX as int) is None,
            },
            None => r == Some(DEFAULT_PORT),
        },
{
    match set {
        Some(s) => match parse_unsigned(s, u16::MAX as u64) {
            Some(p) => {
                assert(p <= u16::MAX);
                Some(p as u16)
            },
            None => None,
        },
        None => Some(DEFAULT_PORT),
    }
}

// ------------------------------------------------------------------------ laws

/// A configuration shows each of its fields.
pub proof fn configurations_show_their_fields(c: BotConfig)
    ensures
        c@.bot_name == c.bot_name@,
        c@.telegram_bot_token == c.telegram_bot_token@,
        c@.telegram_secret_token == c.telegram_secret_token@,
        c@.openai_assistant_id == c.openai_assistant_id@,
        c@.vector_store_id == c.vector_store_id@,
{
}

/// A configuration file is one whose name is something and then `.json`.
pub proof fn configuration_files_are_told_by_their_extension(stem: Seq<u8>, end: Seq<u8>)
    requires
        end.len() == 5,
    ensures
        config_file_name(stem + end) <==> stem.len() > 0 && end[0] == 46 && end[1] == 106 && end[2]
            == 115 && end[3] == 111 && end[4] == 110,
        stem.len() < 5 ==> !config_file_name(stem),
{
    let name = stem + end;
    let dot_json = seq![0x2eu8, 0x6au8, 0x73u8, 0x6fu8, 0x6eu8];
    assert(name.skip(name.len() - 5) =~= end);
    if end[0] == 46 && end[1] == 106 && end[2] == 115 && end[3] == 111 && end[4] == 110 {
        assert(end =~= dot_json);
    }
}

/// Each bot of the table is one of the configurations that were read.
pub proof fn bots_come_from_their_configurations(configs: Seq<BotConfig>, name: Seq<char>)
    requires
        bots_of(configs).contains_key(name),
    ensures
        exists|i: int|
            0 <= i < configs.len() && #[trigger] configs[i] == bots_of(configs)[name]
                && configs[i].bot_name@ == name,
    decreases configs.len(),
{
    if configs.last().bot_name@ == name {
        assert(configs[configs.len() - 1] == bots_of(configs)[name]);
    } else {
        let before = configs.drop_last();
        bots_come_from_their_configurations(before, name);
        let i = choose|i: int|
            0 <= i < before.len() && #[trigger] before[i] == bots_of(before)[name]
                && before[i].bot_name@ == name;
        assert(configs[i] == bots_of(configs)[name]);
    }
}

} // verus!
