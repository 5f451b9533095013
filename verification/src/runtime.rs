//! The runtime: the games that a host can open sessions of.

use vstd::prelude::*;
use vstd::string::StrSliceExecFns;
use crate::sandbox::{compile, explain, new_engine, share};
use crate::session::{Config, Session};
use crate::text::same_text;

verus! {

/// Why the runtime refused.
#[derive(Debug, Clone, PartialEq, Eq, Hash)]
pub enum RuntimeError {
    /// The engine could not be made; the text says why.
    Engine(String),
    /// A game is registered under the key already.
    Duplicate,
    /// The code of the game does not compile; the text says why.
    Compile(String),
    /// No game is registered under the key.
    UnknownGame,
}

/// The games of a host, each under its key, and the settings that their sessions
/// get.
pub struct Runtime {
    engine: wasmtime::Engine,
    modules: Vec<(String, wasmtime::Module)>,
    conf: Config,
}

/// The keys of `games`, in their order.
pub open spec fn keys_of(games: Seq<(Seq<char>, wasmtime::Module)>) -> Seq<Seq<char>> {
    Seq::new(games.len(), |i: int| games[i].0)
}

/// The games of `games` but the one under `key`, in their order.
pub open spec fn without(games: Seq<(Seq<char>, wasmtime::Module)>, key: Seq<char>) -> Seq<
    (Seq<char>, wasmtime::Module),
> {
    games.filter(|game: (Seq<char>, wasmtime::Module)| game.0 != key)
}

impl Runtime {
    /// The registered games, oldest first: each key with its module.
    pub closed spec fn games(&self) -> Seq<(Seq<char>, wasmtime::Module)> {
        Seq::new(self.modules@.len(), |i: int| (self.modules@[i].0@, self.modules@[i].1))
    }

    /// The keys of the registered games, oldest first.
    pub open spec fn keys(&self) -> Seq<Seq<char>> {
        keys_of(self.games())
    }

    /// The settings that sessions get.
    pub closed spec fn conf(&self) -> Config {
        self.conf
    }

    /// No key is registered twice.
    pub open spec fn wf(&self) -> bool {
        self.keys().no_duplicates()
    }

    /// A runtime without games. Fails with `Engine` when the sandbox cannot be set
    /// up.
    pub fn new(conf: Config) -> (runtime: Result<Runtime, RuntimeError>)
        ensures
            match runtime {
                Ok(r) => r.wf() && r.games().len() == 0 && r.conf() == conf,
                Err(e) => e is Engine,
            },
    {
        match new_engine() {
            Err(e) => Err(RuntimeError::Engine(explain(&e))),
            Ok(engine) => {
                let runtime = Runtime { engine, modules: Vec::new(), conf };
                assert(runtime.keys() =~= Seq::<Seq<char>>::empty());
                Ok(runtime)
            },
        }
    }

    /// The settings that sessions get.
    pub fn settings(&self) -> (conf: Config)
        ensures
            conf == self.conf(),
    {
        self.conf
    }

    /// Where `key` stands among the registered games.
    fn position(&self, key: &str) -> (at: Option<usize>)
        ensures
            match at {
                Some(i) => i < self.games().len() && self.games()[i as int].0 == key@
                    && self.games()[i as int].1 == self.modules@[i as int].1,
                None => !self.keys().contains(key@),
            },
    {
        let mut i: usize = 0;
        while i < self.modules.len()
            invariant
                i <= self.modules.len(),
                forall|k: int| 0 <= k < i ==> self.keys()[k] != key@,
            decreases self.modules.len() - i,
        {
            if same_text(self.modules[i].0.as_str(), key) {
                return Some(i);
            }
            i += 1;
        }
        None
    }

    /// Whether a game is registered under `key`.
    pub fn has_game(&self, key: &str) -> (found: bool)
        ensures
            found == self.keys().contains(key@),
    {
        match self.position(key) {
            Some(i) => {
                assert(self.keys()[i as int] == key@);
                true
            },
            None => false,
        }
    }

    /// Registers under `key` what the compiler made of the code of a game.
    ///
    /// Fails with `Duplicate` where the key is taken, whatever the compiler said,
    /// and else with `Compile` where the compiler failed. Otherwise the module is
    /// registered behind the games that are there. A call that fails changes
    /// nothing.
    pub fn register(&mut self, key: &str, compiled: Result<wasmtime::Module, anyhow::Error>) -> (added:
        Result<(), RuntimeError>)
        requires
            old(self).wf(),
        ensures
            final(self).wf(),
            final(self).conf() == old(self).conf(),
            if old(self).keys().contains(key@) {
                &&& added matches Err(e)
                &&& e is Duplicate
                &&& final(self).games() == old(self).games()
            } else {
                match compiled {
                    Ok(module) => added is Ok && final(self).games() == old(self).games().push(
                        (key@, module),
                    ),
                    Err(_) => {
                        &&& added matches Err(e)
                        &&& e is Compile
                        &&& final(self).games() == old(self).games()
                    },
                }
            },
    {
        if self.has_game(key) {
            return Err(RuntimeError::Duplicate);
        }
        match compiled {
            Err(e) => Err(RuntimeError::Compile(explain(&e))),
            Ok(module) => {
                let ghost before = self.games();
                self.modules.push((key.to_owned(), module));
                proof {
                    assert(self.games() =~= before.push((key@, module)));
                    assert(self.keys() =~= keys_of(before).push(key@));
                }
                Ok(())
            },
        }
    }

    /// Registers the game that `code` compiles to under `key`.
    ///
    /// Fails with `Duplicate` exactly when the key is taken; the code is not
    /// looked at then. Otherwise `code` is handed to the compiler as it is and the
    /// outcome is what `register` makes of the compiler's: the game is registered
    /// behind the games that are there, or the call fails with `Compile`. A call
    /// that fails changes nothing.
    pub fn add_game(&mut self, key: &str, code: &[u8]) -> (added: Result<(), RuntimeError>)
        requires
            old(self).wf(),
        ensures
            final(self).wf(),
            final(self).conf() == old(self).conf(),
            match added {
                Ok(()) => {
                    &&& !old(self).keys().contains(key@)
                    &&& final(self).games().len() == old(self).games().len() + 1
                    &&& final(self).games().drop_last() == old(self).games()
                    &&& final(self).games().last().0 == key@
                },
                Err(e) => {
                    &&& final(self).games() == old(self).games()
                    &&& old(self).keys().contains(key@) <==> e is Duplicate
                    &&& !old(self).keys().contains(key@) ==> e is Compile
                },
            },
    {
        if self.has_game(key) {
            return Err(RuntimeError::Duplicate);
        }
        let ghost before = self.games();
        let compiled = compile(&self.engine, code);
        let added = self.register(key, compiled);
        proof {
            if added is Ok {
                assert(self.games().drop_last() =~= before);
            }
        }
        added
    }

    /// Takes the game under `key` out; the others stay as they are, each under its
    /// key and in their order. The result says whether there was such a game.
    pub fn remove_game(&mut self, key: &str) -> (removed: bool)
        requires
            old(self).wf(),
        ensures
            final(self).wf(),
            final(self).conf() == old(self).conf(),
            removed == old(self).keys().contains(key@),
            !final(self).keys().contains(key@),
            final(self).games() == without(old(self).games(), key@),
    {
        match self.position(key) {
            None => {
                proof {
                    lemma_without_keeps_all(self.games(), key@);
                }
                false
            },
            Some(i) => {
                let ghost before = self.games();
                assert(keys_of(before)[i as int] == key@);
                self.modules.remove(i);
                proof {
                    assert(self.games() =~= before.remove(i as int));
                    lemma_without_drops_one(before, i as int);
                }
                true
            },
        }
    }

    /// Opens a session of the game under `key`: the session, with the settings of
    /// this runtime and nobody seated yet, and the module that is registered under
    /// the key.
    ///
    /// Fails with `UnknownGame` exactly when no game is registered under the key.
    pub fn new_session(&self, game_key: &str) -> (opened: Result<
        (Session, wasmtime::Module),
        RuntimeError,
    >)
        ensures
            match opened {
                Ok((session, module)) => {
                    &&& self.games().contains((game_key@, module))
                    &&& session.wf()
                    &&& session.key() == game_key@
                    &&& session.is_fresh()
                    &&& session.settings() == self.conf()
                },
                Err(e) => e is UnknownGame && !self.keys().contains(game_key@),
            },
    {
        match self.position(game_key) {
            None => Err(RuntimeError::UnknownGame),
            Some(i) => {
                let key = self.modules[i].0.clone();
                let module = share(&self.modules[i].1);
                assert(self.games()[i as int] == (game_key@, module));
                Ok((Session::new(key, self.conf), module))
            },
        }
    }
}

/// The key under which the game of a file is registered: the name of the file
/// without the ending `.wasm`, where it has that ending.
pub open spec fn game_key_of(file_name: Seq<char>) -> Seq<char> {
    let ending = ".wasm"@;
    if file_name.len() >= ending.len() && file_name.subrange(
        file_name.len() - ending.len(),
        file_name.len() as int,
    ) == ending {
        file_name.subrange(0, file_name.len() - ending.len())
    } else {
        file_name
    }
}

/// The key under which the game of the file `file_name` is registered.
pub fn game_key(file_name: &str) -> (key: &str)
    ensures
        key@ == game_key_of(file_name@),
{
    let ending = ".wasm";
    let len = file_name.unicode_len();
    let e = ending.unicode_len();
    if len >= e && same_text(file_name.substring_char(len - e, len), ending) {
        file_name.substring_char(0, len - e)
    } else {
        file_name
    }
}

/// Taking out the game under a key that no game has leaves the games as they
/// are.
pub proof fn lemma_without_keeps_all(games: Seq<(Seq<char>, wasmtime::Module)>, key: Seq<char>)
    requires
        !keys_of(games).contains(key),
    ensures
        without(games, key) == games,
    decreases games.len(),
{
    reveal(Seq::filter);
    if games.len() > 0 {
        let rest = games.drop_last();
        assert(games.last().0 != key) by {
            assert(keys_of(games)[games.len() - 1] == games.last().0);
        }
        assert(!keys_of(rest).contains(key)) by {
            if keys_of(rest).contains(key) {
                let i = choose|i: int| 0 <= i < keys_of(rest).len() && keys_of(rest)[i] == key;
                assert(keys_of(games)[i] == key);
            }
        }
        lemma_without_keeps_all(rest, key);
        assert(rest.push(games.last()) =~= games);
    } else {
        assert(without(games, key) =~= games);
    }
}

/// Where no key occurs twice, taking out the game under the key of the game at
/// `at` removes just that game.
pub proof fn lemma_without_drops_one(games: Seq<(Seq<char>, wasmtime::Module)>, at: int)
    requires
        keys_of(games).no_duplicates(),
        0 <= at < games.len(),
    ensures
        without(games, games[at].0) == games.remove(at),
        !keys_of(games.remove(at)).contains(games[at].0),
        keys_of(games.remove(at)).no_duplicates(),
    decreases games.len(),
{
    reveal(Seq::filter);
    let key = games[at].0;
    let rest = games.drop_last();
    let keys = keys_of(games);
    assert(keys[at] == key);
    assert(keys_of(games.remove(at)) =~= keys.remove(at));
    assert(keys.remove(at).no_duplicates());
    assert(!keys.remove(at).contains(key)) by {
        if keys.remove(at).contains(key) {
            let i = choose|i: int| 0 <= i < keys.remove(at).len() && keys.remove(at)[i] == key;
            if i < at {
                assert(keys[i] == key);
            } else {
                assert(keys[i + 1] == key);
            }
        }
    }
    assert(keys_of(rest) =~= keys.drop_last());
    if at == games.len() - 1 {
        assert(!keys_of(rest).contains(key)) by {
            if keys_of(rest).contains(key) {
                let i = choose|i: int| 0 <= i < rest.len() && keys_of(rest)[i] == key;
                assert(keys[i] == key);
            }
        }
        lemma_without_keeps_all(rest, key);
        assert(games.remove(at) =~= rest);
    } else {
        assert(keys_of(rest).no_duplicates());
        assert(rest[at] == games[at]);
        lemma_without_drops_one(rest, at);
        assert(games.last().0 != key) by {
            assert(keys[games.len() - 1] == games.last().0);
        }
        assert(rest.remove(at).push(games.last()) =~= games.remove(at));
    }
}

} // verus!
