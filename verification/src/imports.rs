//! The import loader: which files a program needs, in which order, and
//! the one program they make together.
//!
//! The loader reads no file itself. It says which file it needs next, is
//! given the file's text, and goes on from there, until it needs no more.

use crate::ast::{lemma_stmts_index, lemma_stmts_len, stmts_view, Program, Stmt, StmtView};
use crate::grammar::laws::grammar_of;
use crate::lexer::Lexing;
use crate::number::{lawful, model_of, NumberReply, NumberRequest};
use crate::parser::Parser;
use vstd::prelude::*;

verus! {

/// Why a file cannot be imported.
#[derive(Debug, Clone, Copy, PartialEq, Eq, Structural)]
pub enum ImportError {
    /// The file is empty.
    Empty,
    /// The file has lexical or syntax errors.
    Syntax,
    /// No file was asked for, or another one.
    Unexpected,
}

/// A module whose imports are being loaded.
pub struct Loading {
    /// The file the module came from; empty for the main program.
    pub file: String,
    pub program: Program,
    /// How many statements of the module have been looked at.
    pub at: usize,
}

/// The mathematical value of a [`Loading`].
pub struct LoadingModel {
    pub file: Seq<char>,
    pub program: Seq<StmtView>,
    pub at: nat,
}

impl Loading {
    pub open spec fn view(&self) -> LoadingModel {
        LoadingModel {
            file: self.file@,
            program: stmts_view(self.program@),
            at: self.at as nat,
        }
    }
}

/// The state of a load.
pub struct LoadModel {
    /// The modules loaded so far, each after the modules it imports.
    pub loaded: Seq<(Seq<char>, Seq<StmtView>)>,
    /// The modules whose imports are being loaded, the main program first
    /// and each other one imported by the one before it.
    pub loading: Seq<LoadingModel>,
}

/// The name of the file that the module `name` is in.
pub open spec fn file_of(name: Seq<char>) -> Seq<char> {
    name + ".lox"@
}

/// Whether a module of `loaded[i..]` came from `file`.
pub open spec fn is_loaded(loaded: Seq<(Seq<char>, Seq<StmtView>)>, file: Seq<char>, i: int) -> bool
    decreases loaded.len() - i,
{
    if i < 0 || i >= loaded.len() {
        false
    } else if loaded[i].0 == file {
        true
    } else {
        is_loaded(loaded, file, i + 1)
    }
}

/// Whether a module of `loading[i..]` came from `file`.
pub open spec fn is_loading(loading: Seq<LoadingModel>, file: Seq<char>, i: int) -> bool
    decreases loading.len() - i,
{
    if i < 0 || i >= loading.len() {
        false
    } else if loading[i].file == file {
        true
    } else {
        is_loading(loading, file, i + 1)
    }
}

/// How much is left to look at in the modules being loaded.
pub open spec fn work_left(loading: Seq<LoadingModel>) -> nat
    decreases loading.len(),
{
    if loading.len() == 0 {
        0
    } else {
        let last = loading.last();
        work_left(loading.drop_last()) + 1 + if last.at < last.program.len() {
            (last.program.len() - last.at) as nat
        } else {
            0
        }
    }
}

impl LoadModel {
    /// The load of the main program `program`, at its start.
    pub open spec fn start(program: Seq<StmtView>) -> LoadModel {
        LoadModel {
            loaded: Seq::empty(),
            loading: seq![LoadingModel { file: Seq::empty(), program, at: 0 }],
        }
    }

    /// The file that the load needs next, and the state in which it waits
    /// for it; `None`, and the state at the end, when it needs no more.
    ///
    /// The imports of a module are looked at in order. An import of a
    /// module that is loaded, or being loaded, is passed over. A module
    /// whose imports have all been looked at is loaded; only the main
    /// program stays where it is.
    pub open spec fn wanted(self) -> (LoadModel, Option<Seq<char>>)
        decreases work_left(self.loading),
    {
        if self.loading.len() == 0 {
            (self, None)
        } else {
            let top = self.loading.last();
            if top.at >= top.program.len() {
                if self.loading.len() == 1 {
                    (self, None)
                } else {
                    LoadModel {
                        loaded: self.loaded.push((top.file, top.program)),
                        loading: self.loading.drop_last(),
                    }.wanted()
                }
            } else {
                let passed = LoadModel {
                    loading: self.loading.update(
                        self.loading.len() - 1,
                        LoadingModel { at: top.at + 1, ..top },
                    ),
                    ..self
                };
                proof {
                    assert(passed.loading.drop_last() =~= self.loading.drop_last());
                }
                match top.program[top.at as int] {
                    StmtView::Import(name) => if is_loaded(self.loaded, file_of(name), 0)
                        || is_loading(self.loading, file_of(name), 0) {
                        passed.wanted()
                    } else {
                        (passed, Some(file_of(name)))
                    },
                    _ => passed.wanted(),
                }
            }
        }
    }

    /// The state after the module from `file`, with the statements
    /// `program`, has been given to the load.
    pub open spec fn supplied(self, file: Seq<char>, program: Seq<StmtView>) -> LoadModel {
        LoadModel { loading: self.loading.push(LoadingModel { file, program, at: 0 }), ..self }
    }

    /// The statements of `loaded[i..]`, one module after the other.
    pub open spec fn joined(loaded: Seq<(Seq<char>, Seq<StmtView>)>, i: int) -> Seq<StmtView>
        decreases loaded.len() - i,
    {
        if i < 0 || i >= loaded.len() {
            Seq::empty()
        } else {
            loaded[i].1 + LoadModel::joined(loaded, i + 1)
        }
    }

    /// The one program of the load: the loaded modules, in the order in
    /// which they were loaded, and the main program after them.
    pub open spec fn whole(self) -> Seq<StmtView> {
        LoadModel::joined(self.loaded, 0) + if self.loading.len() > 0 {
            self.loading[0].program
        } else {
            Seq::empty()
        }
    }
}

/// What becomes of the text `source` of an imported file: its program, if
/// the text is not empty and lexes and parses without errors.
pub open spec fn imported(source: Seq<char>, numbers: spec_fn(Seq<char>) -> crate::number::Number)
    -> Result<Seq<StmtView>, ImportError> {
    if source.len() == 0 {
        Err(ImportError::Empty)
    } else {
        let p = grammar_of(source, numbers).program();
        if p.cursor.errors.len() > 0 {
            Err(ImportError::Syntax)
        } else {
            Ok(p.items)
        }
    }
}

/// Parses the text of an imported file.
pub fn parse_import<K: Fn(NumberRequest) -> NumberReply>(source: &str, numbers: K) -> (r: Result<
    Program,
    ImportError,
>)
    requires
        lawful(&numbers),
    ensures
        match r {
            Ok(p) => Ok(stmts_view(p@)),
            Err(x) => Err(x),
        } == imported(source@, model_of(&numbers).parse),
{
    let lex = Lexing::new(source);
    let empty = source.unicode_len() == 0;
    let mut parser = Parser::new(lex, numbers);
    let program = parser.parse();
    if empty {
        return Err(ImportError::Empty);
    }
    if parser.has_errors() {
        return Err(ImportError::Syntax);
    }
    Ok(program)
}

/// A load of a program and the modules it imports.
pub struct Imports {
    imports: Vec<(String, Program)>,
    loading: Vec<Loading>,
    current_dir: String,
    asked: Option<String>,
}

impl Imports {
    /// The state of the load.
    pub closed spec fn model(&self) -> LoadModel {
        LoadModel {
            loaded: self.imports@.map_values(|m: (String, Program)| (m.0@, stmts_view(m.1@))),
            loading: self.loading@.map_values(|l: Loading| l.view()),
        }
    }

    /// The file that the load waits for, if it waits for one.
    pub closed spec fn asked(&self) -> Option<Seq<char>> {
        match self.asked {
            Some(f) => Some(f@),
            None => None,
        }
    }

    /// The directory that the files are in.
    pub closed spec fn directory(&self) -> Seq<char> {
        self.current_dir@
    }

    /// A load of the main program `program`, whose imports are files in
    /// `current_dir`.
    pub fn new(program: Program, current_dir: String) -> (imports: Imports)
        ensures
            imports.model() == LoadModel::start(stmts_view(program@)),
            imports.asked() is None,
            imports.directory() == current_dir@,
    {
        let mut loading: Vec<Loading> = Vec::new();
        loading.push(Loading { file: String::new(), program, at: 0 });
        let imports = Imports { imports: Vec::new(), loading, current_dir, asked: None };
        proof {
            assert(imports.model().loaded =~= Seq::empty());
            assert(imports.model().loading =~= LoadModel::start(stmts_view(program@)).loading);
        }
        imports
    }

    /// The directory that the files are in.
    pub fn current_dir(&self) -> (dir: &String)
        ensures
            dir@ == self.directory(),
    {
        &self.current_dir
    }

    fn loaded_already(&self, file: &String) -> (b: bool)
        ensures
            b == is_loaded(self.model().loaded, file@, 0),
    {
        let mut i: usize = 0;
        while i < self.imports.len()
            invariant
                i <= self.imports.len(),
                is_loaded(self.model().loaded, file@, 0) == is_loaded(
                    self.model().loaded,
                    file@,
                    i as int,
                ),
            decreases self.imports.len() - i,
        {
            if self.imports[i].0 == *file {
                return true;
            }
            i += 1;
        }
        false
    }

    fn loading_already(&self, file: &String) -> (b: bool)
        ensures
            b == is_loading(self.model().loading, file@, 0),
    {
        let mut i: usize = 0;
        while i < self.loading.len()
            invariant
                i <= self.loading.len(),
                is_loading(self.model().loading, file@, 0) == is_loading(
                    self.model().loading,
                    file@,
                    i as int,
                ),
            decreases self.loading.len() - i,
        {
            if self.loading[i].file == *file {
                return true;
            }
            i += 1;
        }
        false
    }

    /// The name of the file that the load needs next, in the directory of
    /// the load; `None` when it needs no more.
    pub fn next(&mut self) -> (file: Option<String>)
        ensures
            final(self).directory() == old(self).directory(),
            final(self).model() == old(self).model().wanted().0,
            match file {
                Some(f) => Some(f@),
                None => None,
            } == old(self).model().wanted().1,
            final(self).asked() == old(self).model().wanted().1,
    {
        self.asked = None;
        loop
            invariant
                self.directory() == old(self).directory(),
                self.asked() is None,
                old(self).model().wanted() == self.model().wanted(),
            decreases work_left(self.model().loading),
        {
            let n = self.loading.len();
            if n == 0 {
                return None;
            }
            let ghost before = self.model();
            let at = self.loading[n - 1].at;
            proof {
                lemma_stmts_len(self.loading@[n - 1].program@);
            }
            if at >= self.loading[n - 1].program.len() {
                if n == 1 {
                    return None;
                }
                let done = self.loading.pop().unwrap();
                self.imports.push((done.file, done.program));
                proof {
                    assert(self.model().loading =~= before.loading.drop_last());
                    assert(self.model().loaded =~= before.loaded.push(
                        (done.file@, stmts_view(done.program@)),
                    ));
                }
            } else {
                proof {
                    lemma_stmts_index(self.loading@[n - 1].program@, at as int);
                }
                let wanted = match &self.loading[n - 1].program[at] {
                    Stmt::Import(name) => {
                        let mut file = name.clone();
                        file.append(".lox");
                        if self.loaded_already(&file) || self.loading_already(&file) {
                            None
                        } else {
                            Some(file)
                        }
                    },
                    _ => None,
                };
                let mut top = self.loading.pop().unwrap();
                top.at = at + 1;
                self.loading.push(top);
                proof {
                    assert(self.model().loading =~= before.loading.update(
                        n - 1,
                        LoadingModel { at: (at + 1) as nat, ..before.loading[n - 1] },
                    ));
                    assert(self.model().loaded =~= before.loaded);
                    assert(self.model().loading.drop_last() =~= before.loading.drop_last());
                }
                match wanted {
                    Some(file) => {
                        self.asked = Some(file.clone());
                        return Some(file);
                    },
                    None => {},
                }
            }
        }
    }

    /// Gives the load the text `source` of the file `file` that it waits
    /// for. `numbers` must be a number kernel.
    ///
    /// Refuses a file that the load does not wait for, an empty file, and
    /// a file with errors; the load is then as before.
    pub fn supply<K: Fn(NumberRequest) -> NumberReply>(
        &mut self,
        file: &str,
        source: &str,
        numbers: K,
    ) -> (r: Result<(), ImportError>)
        requires
            lawful(&numbers),
        ensures
            final(self).directory() == old(self).directory(),
            r == if old(self).asked() != Some(file@) {
                Err::<(), ImportError>(ImportError::Unexpected)
            } else {
                match imported(source@, model_of(&numbers).parse) {
                    Ok(_) => Ok(()),
                    Err(x) => Err(x),
                }
            },
            match r {
                Ok(_) => final(self).model() == old(self).model().supplied(
                    file@,
                    imported(source@, model_of(&numbers).parse).unwrap(),
                ) && final(self).asked() is None,
                Err(_) => final(self).model() == old(self).model() && final(self).asked() == old(
                    self,
                ).asked(),
            },
    {
        let name = String::from_str(file);
        let waits = match &self.asked {
            Some(f) => *f == name,
            None => false,
        };
        if !waits {
            return Err(ImportError::Unexpected);
        }
        match parse_import(source, numbers) {
            Err(x) => Err(x),
            Ok(program) => {
                self.insert_loading(name, program);
                self.asked = None;
                Ok(())
            },
        }
    }

    fn insert_loading(&mut self, file: String, program: Program)
        ensures
            final(self).directory() == old(self).directory(),
            final(self).asked() == old(self).asked(),
            final(self).model() == old(self).model().supplied(file@, stmts_view(program@)),
    {
        self.loading.push(Loading { file, program, at: 0 });
        proof {
            assert(self.model().loading =~= old(self).model().loading.push(
                LoadingModel { file: file@, program: stmts_view(program@), at: 0 },
            ));
            assert(self.model().loaded =~= old(self).model().loaded);
        }
    }

    /// Adds the module `program` from the file `name` to the loaded
    /// modules, as the last of them.
    pub fn insert(&mut self, name: String, program: Program)
        ensures
            final(self).directory() == old(self).directory(),
            final(self).asked() == old(self).asked(),
            final(self).model() == (LoadModel {
                loaded: old(self).model().loaded.push((name@, stmts_view(program@))),
                ..old(self).model()
            }),
    {
        self.imports.push((name, program));
        proof {
            assert(self.model().loaded =~= old(self).model().loaded.push(
                (name@, stmts_view(program@)),
            ));
            assert(self.model().loading =~= old(self).model().loading);
        }
    }

    /// The loaded module from the file `name`.
    pub fn get(&self, name: &str) -> (r: Option<&Program>)
        ensures
            r is Some == is_loaded(self.model().loaded, name@, 0),
            r is Some ==> exists|i: int|
                0 <= i < self.model().loaded.len() && self.model().loaded[i] == (
                    name@,
                    stmts_view(r.unwrap()@),
                ),
    {
        let key = String::from_str(name);
        let mut i: usize = 0;
        while i < self.imports.len()
            invariant
                i <= self.imports.len(),
                key@ == name@,
                is_loaded(self.model().loaded, name@, 0) == is_loaded(
                    self.model().loaded,
                    name@,
                    i as int,
                ),
            decreases self.imports.len() - i,
        {
            if self.imports[i].0 == key {
                assert(self.model().loaded[i as int] == (name@, stmts_view(self.imports@[i as int].1@)));
                return Some(&self.imports[i].1);
            }
            i += 1;
        }
        None
    }

    /// The one program of the load: the loaded modules, in the order in
    /// which they were loaded, and the main program after them. The load
    /// is used up.
    pub fn load(self) -> (program: Program)
        ensures
            stmts_view(program@) == self.model().whole(),
    {
        let ghost model = self.model();
        let mut imports = self.imports;
        let mut loading = self.loading;
        let mut all: Program = Vec::new();
        assert(stmts_view(all@) =~= Seq::empty());
        let ghost total = imports@.len();
        let ghost mut taken: int = 0;
        while imports.len() > 0
            invariant
                0 <= taken,
                taken + imports@.len() == total,
                total == model.loaded.len(),
                forall|j: int|
                    0 <= j < imports@.len() ==> (
                        (#[trigger] imports@[j]).0@,
                        stmts_view(imports@[j].1@),
                    ) == model.loaded[taken + j],
                stmts_view(all@) + LoadModel::joined(model.loaded, taken)
                    == LoadModel::joined(model.loaded, 0),
            decreases imports.len(),
        {
            let ghost before = stmts_view(all@);
            let ghost rest = imports@;
            let module = imports.remove(0);
            let mut statements = module.1;
            proof {
                assert(module == rest[0]);
                assert(stmts_view(statements@) == model.loaded[taken].1);
                assert forall|j: int| 0 <= j < imports@.len() implies (
                    (#[trigger] imports@[j]).0@,
                    stmts_view(imports@[j].1@),
                ) == model.loaded[taken + 1 + j] by {
                    assert(imports@[j] == rest[j + 1]);
                }
            }
            let ghost added = statements@;
            let ghost old_all = all@;
            all.append(&mut statements);
            proof {
                lemma_stmts_concat(old_all, added);
                assert((before + stmts_view(added)) + LoadModel::joined(model.loaded, taken + 1)
                    =~= before + (stmts_view(added) + LoadModel::joined(
                    model.loaded,
                    taken + 1,
                )));
            }
            proof {
                taken = taken + 1;
            }
        }
        proof {
            assert(stmts_view(all@) + Seq::<StmtView>::empty() =~= stmts_view(all@));
        }
        if loading.len() > 0 {
            let ghost old_all = all@;
            let root = loading.remove(0);
            let mut statements = root.program;
            let ghost added = statements@;
            all.append(&mut statements);
            proof {
                lemma_stmts_concat(old_all, added);
            }
        } else {
            proof {
                assert(stmts_view(all@) + Seq::<StmtView>::empty() =~= stmts_view(all@));
            }
        }
        all
    }
}

/// The values of two runs of statements, one after the other.
pub proof fn lemma_stmts_concat(a: Seq<Stmt>, b: Seq<Stmt>)
    ensures
        stmts_view(a + b) == stmts_view(a) + stmts_view(b),
{
    lemma_stmts_len(a);
    lemma_stmts_len(b);
    lemma_stmts_len(a + b);
    assert forall|i: int| 0 <= i < (a + b).len() implies stmts_view(a + b)[i] == (stmts_view(a)
        + stmts_view(b))[i] by {
        lemma_stmts_index(a + b, i);
        if i < a.len() {
            lemma_stmts_index(a, i);
        } else {
            lemma_stmts_index(b, i - a.len());
        }
    }
    assert(stmts_view(a + b) =~= stmts_view(a) + stmts_view(b));
}

} // verus!
