//! The engine's command line and environment.

use crate::text;
use crate::ui::core_client::SpawnConfig;
use crate::ui::settings::model::{AppConfig, ConfigView};
use crate::ui::settings::{ENV_ASR_KEY, ENV_LLM_KEY};
use vstd::prelude::*;

verus! {

/// A key from the credential store and from the environment.
#[derive(Debug, Clone)]
pub struct KeySources {
    pub stored: Option<String>,
    pub environment: Option<String>,
}

/// The key to use: the stored one comes first.
pub open spec fn chosen_key(keys: KeySources) -> Option<Seq<char>> {
    match keys.stored {
        Some(k) => Some(k@),
        None => match keys.environment {
            Some(k) => Some(k@),
            None => None,
        },
    }
}

fn choose_key(keys: KeySources) -> (r: Option<String>)
    ensures
        (match r {
            Some(k) => Some(k@),
            None => None,
        }) == chosen_key(keys),
{
    match keys.stored {
        Some(k) => Some(k),
        None => keys.environment,
    }
}

/// The engine's arguments for the settings.
pub open spec fn spawn_args(config: ConfigView, hotwords_file: Option<Seq<char>>) -> Seq<Seq<char>> {
    let asr = seq!["--asr-base-url"@, config.asr_url, "--asr-lang"@, config.lang];
    let hotwords = match hotwords_file {
        Some(path) => seq!["--hotwords-file"@, path],
        None => seq![],
    };
    let llm = if config.llm_enabled {
        seq!["--llm-base-url"@, config.llm_url, "--llm-model"@, config.llm_model]
    } else {
        seq!["--no-llm"@]
    };
    asr + hotwords + llm
}

/// The variables of an environment.
pub open spec fn env_views(env: Seq<(String, String)>) -> Seq<(Seq<char>, Seq<char>)> {
    env.map_values(|e: (String, String)| (e.0@, e.1@))
}

fn push_arg(args: &mut Vec<String>, arg: &str)
    ensures
        text::texts(final(args)@) == text::texts(old(args)@).push(arg@),
{
    args.push(arg.to_owned());
    assert(text::texts(args@) =~= text::texts(old(args)@).push(arg@));
}

/// How to start the engine with the settings in force. Keys go through the
/// environment, not the command line. A key that is needed has to be there.
pub fn build_spawn_config(
    exe: String,
    config: &AppConfig,
    hotwords_file: Option<String>,
    asr_keys: KeySources,
    llm_keys: KeySources,
) -> (r: Result<SpawnConfig, String>)
    ensures
        match r {
            Ok(spawn) => {
                &&& spawn.exe == exe
                &&& chosen_key(asr_keys) matches Some(asr_key) && {
                    &&& config@.llm_enabled ==> (chosen_key(llm_keys) matches Some(llm_key)
                        && env_views(spawn.env@) == seq![
                        (ENV_ASR_KEY@, asr_key),
                        (ENV_LLM_KEY@, llm_key),
                    ])
                    &&& !config@.llm_enabled ==> env_views(spawn.env@) == seq![
                        (ENV_ASR_KEY@, asr_key),
                    ]
                }
                &&& text::texts(spawn.args@) == spawn_args(
                    config@,
                    crate::engine::params::optional_text(hotwords_file),
                )
            },
            Err(what) => {
                ||| chosen_key(asr_keys) is None && what@ == "ASR API key is not configured"@
                ||| chosen_key(asr_keys) is Some && config@.llm_enabled && chosen_key(
                    llm_keys,
                ) is None && what@ == "LLM API key is not configured"@
            },
        },
{
    let mut env: Vec<(String, String)> = Vec::new();
    let mut args: Vec<String> = Vec::new();
    let ghost path = crate::engine::params::optional_text(hotwords_file);
    let asr_key = match choose_key(asr_keys) {
        Some(k) => k,
        None => {
            return Err("ASR API key is not configured".to_owned());
        },
    };
    env.push((ENV_ASR_KEY.to_owned(), asr_key));
    push_arg(&mut args, "--asr-base-url");
    push_arg(&mut args, config.asr.base_url.as_str());
    push_arg(&mut args, "--asr-lang");
    push_arg(&mut args, config.asr.lang.as_str());
    if let Some(path) = hotwords_file {
        push_arg(&mut args, "--hotwords-file");
        push_arg(&mut args, path.as_str());
    }
    if config.llm.enabled {
        let llm_key = match choose_key(llm_keys) {
            Some(k) => k,
            None => {
                return Err("LLM API key is not configured".to_owned());
            },
        };
        env.push((ENV_LLM_KEY.to_owned(), llm_key));
        push_arg(&mut args, "--llm-base-url");
        push_arg(&mut args, config.llm.base_url.as_str());
        push_arg(&mut args, "--llm-model");
        push_arg(&mut args, config.llm.model.as_str());
        assert(env_views(env@) =~= seq![(ENV_ASR_KEY@, asr_key@), (ENV_LLM_KEY@, llm_key@)]);
    } else {
        push_arg(&mut args, "--no-llm");
        assert(env_views(env@) =~= seq![(ENV_ASR_KEY@, asr_key@)]);
    }
    assert(text::texts(args@) =~= spawn_args(config@, path));
    Ok(SpawnConfig { exe, args, env })
}

// ─── Laws ──────────────────────────────────────────────────────────────

/// A key that is stored goes before one in the environment.
pub proof fn law_stored_keys_come_first(keys: KeySources)
    ensures
        chosen_key(keys) is None <==> keys.stored is None && keys.environment is None,
        keys.stored matches Some(k) ==> chosen_key(keys) == Some(k@),
        keys.stored is None ==> (keys.environment matches Some(k) ==> chosen_key(keys) == Some(k@)),
{
}

/// Whether a value stands behind its option.
pub open spec fn passes(args: Seq<Seq<char>>, option: Seq<char>, value: Seq<char>) -> bool {
    exists|i: int| 0 <= i < args.len() - 1 && #[trigger] args[i] == option && args[i + 1] == value
}

/// The engine gets every setting behind its option: the recogniser's address and
/// language, the hotwords if there are any, and the model's address and name, or
/// the word that switches cleanup off, exactly as the settings say.
pub proof fn law_the_engine_gets_the_settings(
    config: ConfigView,
    hotwords_file: Option<Seq<char>>,
)
    ensures
        ({
            let args = spawn_args(config, hotwords_file);
            &&& passes(args, "--asr-base-url"@, config.asr_url)
            &&& passes(args, "--asr-lang"@, config.lang)
            &&& hotwords_file matches Some(path) ==> passes(args, "--hotwords-file"@, path)
            &&& config.llm_enabled ==> passes(args, "--llm-base-url"@, config.llm_url) && passes(
                args,
                "--llm-model"@,
                config.llm_model,
            )
            &&& !config.llm_enabled ==> args.last() == "--no-llm"@
            &&& args.len() == 4 + (if hotwords_file is Some {
                2int
            } else {
                0
            }) + (if config.llm_enabled {
                4int
            } else {
                1
            })
        }),
{
    let args = spawn_args(config, hotwords_file);
    let at: int = if hotwords_file is Some {
        6
    } else {
        4
    };
    assert(args[0] == "--asr-base-url"@ && args[1] == config.asr_url);
    assert(args[2] == "--asr-lang"@ && args[3] == config.lang);
    if let Some(path) = hotwords_file {
        assert(args[4] == "--hotwords-file"@ && args[5] == path);
    }
    if config.llm_enabled {
        assert(args[at] == "--llm-base-url"@ && args[at + 1] == config.llm_url);
        assert(args[at + 2] == "--llm-model"@ && args[at + 3] == config.llm_model);
    }
}

/// The variables of an environment keep their order, their names and their
/// values.
pub proof fn law_variables_keep_name_and_value(env: Seq<(String, String)>, i: int)
    ensures
        env_views(env).len() == env.len(),
        0 <= i < env.len() ==> env_views(env)[i] == (env[i].0@, env[i].1@),
{
}

/// The engine finds its keys under these names.
pub proof fn law_keys_have_names_of_their_own()
    ensures
        ENV_ASR_KEY@ == "AIRTALK_ASR_API_KEY"@,
        ENV_LLM_KEY@ == "AIRTALK_LLM_API_KEY"@,
        ENV_ASR_KEY@ != ENV_LLM_KEY@,
{
    reveal_strlit("AIRTALK_ASR_API_KEY");
    reveal_strlit("AIRTALK_LLM_API_KEY");
    assert(ENV_ASR_KEY@[8] != ENV_LLM_KEY@[8]);
}

} // verus!
