use rulebook::runtime::{game_key, Runtime, RuntimeError};
use rulebook::session::{Config, SessionPhase};

const EMPTY_MODULE: [u8; 8] = [0x00, 0x61, 0x73, 0x6D, 0x01, 0x00, 0x00, 0x00];

/// A module that exports one memory under the name `mem`.
const MEMORY_MODULE: [u8; 22] = [
    0x00, 0x61, 0x73, 0x6D, 0x01, 0x00, 0x00, 0x00, 0x05, 0x03, 0x01, 0x00, 0x01, 0x07, 0x07,
    0x01, 0x03, 0x6D, 0x65, 0x6D, 0x02, 0x00,
];

#[test]
fn games_are_registered_once() {
    let mut runtime = Runtime::new(Config::default()).unwrap();
    assert!(!runtime.has_game("guess"));
    assert_eq!(runtime.add_game("guess", &EMPTY_MODULE), Ok(()));
    assert!(runtime.has_game("guess"));
    assert_eq!(runtime.add_game("guess", &EMPTY_MODULE), Err(RuntimeError::Duplicate));
    assert_eq!(runtime.add_game("guess", b"not wasm"), Err(RuntimeError::Duplicate));
    assert_eq!(runtime.add_game("Guess", &EMPTY_MODULE), Ok(()));
    assert_eq!(runtime.add_game("", &EMPTY_MODULE), Ok(()));
}

#[test]
fn code_that_does_not_compile_is_not_registered() {
    let mut runtime = Runtime::new(Config::default()).unwrap();
    match runtime.add_game("broken", b"not wasm") {
        Err(RuntimeError::Compile(why)) => assert!(!why.is_empty()),
        other => panic!("not a compile error: {:?}", other),
    }
    assert!(!runtime.has_game("broken"));
    assert_eq!(runtime.add_game("broken", &EMPTY_MODULE), Ok(()));
}

#[test]
fn removing_reports_whether_there_was_a_game() {
    let mut runtime = Runtime::new(Config::default()).unwrap();
    runtime.add_game("a", &EMPTY_MODULE).unwrap();
    runtime.add_game("b", &EMPTY_MODULE).unwrap();
    assert!(runtime.remove_game("a"));
    assert!(!runtime.remove_game("a"));
    assert!(!runtime.has_game("a"));
    assert!(runtime.has_game("b"));
    assert!(!runtime.remove_game("c"));
    assert_eq!(runtime.add_game("a", &EMPTY_MODULE), Ok(()));
}

#[test]
fn sessions_open_for_registered_games_only() {
    let conf = Config { enable_state: true, enable_logging: false };
    let mut runtime = Runtime::new(conf).unwrap();
    runtime.add_game("guess", &EMPTY_MODULE).unwrap();
    let (session, module) = runtime.new_session("guess").unwrap();
    assert_eq!(session.game_key(), "guess");
    assert_eq!(session.current_phase(), SessionPhase::Starting);
    assert_eq!(module.exports().count(), 0);
    match runtime.new_session("chess") {
        Err(RuntimeError::UnknownGame) => {}
        Ok(_) => panic!("a session of a game that is not registered"),
        Err(other) => panic!("wrong error: {:?}", other),
    }
}

#[test]
fn game_keys_are_file_names_without_the_ending() {
    assert_eq!(game_key("guess.wasm"), "guess");
    assert_eq!(game_key("guess"), "guess");
    assert_eq!(game_key("guess.wasm.wasm"), "guess.wasm");
    assert_eq!(game_key(".wasm"), "");
    assert_eq!(game_key("wasm"), "wasm");
    assert_eq!(game_key("guess.WASM"), "guess.WASM");
    assert_eq!(game_key("spiel-für-zwei.wasm"), "spiel-für-zwei");
    assert_eq!(game_key(""), "");
}

#[test]
fn sessions_get_the_module_that_is_registered_under_the_key() {
    let mut runtime = Runtime::new(Config::default()).unwrap();
    runtime.add_game("plain", &EMPTY_MODULE).unwrap();
    runtime.add_game("memory", &MEMORY_MODULE).unwrap();
    runtime.add_game("other", &EMPTY_MODULE).unwrap();
    assert_eq!(runtime.new_session("memory").unwrap().1.exports().count(), 1);
    assert_eq!(runtime.new_session("plain").unwrap().1.exports().count(), 0);
    assert!(runtime.remove_game("plain"));
    assert_eq!(runtime.new_session("memory").unwrap().1.exports().count(), 1);
    assert_eq!(runtime.new_session("other").unwrap().1.exports().count(), 0);
}

#[test]
fn a_duplicate_key_leaves_the_registered_game_as_it_was() {
    let mut runtime = Runtime::new(Config::default()).unwrap();
    runtime.add_game("game", &MEMORY_MODULE).unwrap();
    assert_eq!(runtime.add_game("game", &EMPTY_MODULE), Err(RuntimeError::Duplicate));
    assert_eq!(runtime.add_game("game", b"not wasm"), Err(RuntimeError::Duplicate));
    assert_eq!(runtime.new_session("game").unwrap().1.exports().count(), 1);
}

#[test]
fn registering_follows_what_the_compiler_said() {
    let engine = wasmtime::Engine::default();
    let mut runtime = Runtime::new(Config::default()).unwrap();
    let compiled = wasmtime::Module::new(&engine, &MEMORY_MODULE);
    assert_eq!(runtime.register("game", compiled), Ok(()));
    assert!(runtime.has_game("game"));

    let failed = wasmtime::Module::new(&engine, b"not wasm");
    assert!(failed.is_err());
    match runtime.register("broken", failed) {
        Err(RuntimeError::Compile(why)) => assert!(!why.is_empty()),
        other => panic!("not a compile error: {:?}", other),
    }
    assert!(!runtime.has_game("broken"));

    let again = wasmtime::Module::new(&engine, &EMPTY_MODULE);
    assert_eq!(runtime.register("game", again), Err(RuntimeError::Duplicate));
    let bad = wasmtime::Module::new(&engine, b"not wasm");
    assert_eq!(runtime.register("game", bad), Err(RuntimeError::Duplicate));
    assert_eq!(runtime.new_session("game").unwrap().1.exports().count(), 1);
}

#[test]
fn sessions_get_the_settings_of_the_runtime() {
    let conf = Config { enable_state: false, enable_logging: true };
    let mut runtime = Runtime::new(conf).unwrap();
    assert_eq!(runtime.settings(), conf);
    runtime.add_game("game", &EMPTY_MODULE).unwrap();
    assert_eq!(runtime.new_session("game").unwrap().0.conf(), conf);
}
