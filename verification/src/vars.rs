//! The variable table: named string values with an active-variable cursor
//! and a literal-escape wrapping convention.
//!
//! A value that itself mentions the variable sigil `@` is stored wrapped in
//! `{...}`, so that referencing it through another variable splices it in
//! verbatim instead of triggering re-expansion.  Seven intrinsic variables
//! are pre-seeded with the placeholder value `null`.

use vstd::prelude::*;

use crate::text::str_contains_char;

verus! {

/// The sigil character marking a token as a variable reference.
pub const VARIABLE_DELIMITER: char = '@';

/// How `add` stores a value: wrapped in braces exactly when the value text
/// itself contains the sigil character.
pub open spec fn wrapped_value(v: Seq<char>) -> Seq<char> {
    if v.contains('@') {
        seq!['{'] + v + seq!['}']
    } else {
        v
    }
}

/// The position of `k` in `names`, when the names are distinct and `k`
/// occurs among them.
pub closed spec fn index_of_key(names: Seq<Seq<char>>, k: Seq<char>) -> int {
    choose|i: int| 0 <= i < names.len() && names[i] == k
}

/// With distinct names, `index_of_key` is the one position holding `k`.
proof fn lemma_index_of_key(names: Seq<Seq<char>>, k: Seq<char>)
    requires
        names.no_duplicates(),
        names.contains(k),
    ensures
        0 <= index_of_key(names, k) < names.len(),
        names[index_of_key(names, k)] == k,
        forall|i: int| 0 <= i < names.len() && names[i] == k ==> i == index_of_key(names, k),
{
    let w = choose|i: int| 0 <= i < names.len() && names[i] == k;
    assert(0 <= w < names.len() && names[w] == k);
}

/// Mapping from variable name to stored value string, with an
/// active-variable cursor addressed by `lookup`.
#[derive(Debug)]
pub struct ParserVar {
    names: Vec<String>,
    values: Vec<String>,
    active_variable: Option<String>,
}

impl ParserVar {
    /// The stored names, as character sequences.
    pub closed spec fn names_views(self) -> Seq<Seq<char>> {
        self.names@.map_values(|s: String| s@)
    }

    /// The table as a mathematical map from name to stored value.
    pub closed spec fn entries(self) -> Map<Seq<char>, Seq<char>> {
        Map::new(
            |k: Seq<char>| self.names_views().contains(k),
            |k: Seq<char>| self.values@[index_of_key(self.names_views(), k)]@,
        )
    }

    /// The active-variable cursor.
    pub closed spec fn active(self) -> Option<Seq<char>> {
        match self.active_variable {
            Some(s) => Some(s@),
            None => None,
        }
    }

    /// Internal validity: names and values run in step, names are distinct,
    /// and the cursor, when set, addresses a stored name.
    pub closed spec fn wf(self) -> bool {
        &&& self.names@.len() == self.values@.len()
        &&& self.names_views().no_duplicates()
        &&& match self.active_variable {
            Some(s) => self.names_views().contains(s@),
            None => true,
        }
    }

    /// The seven intrinsic variables, pre-seeded with the placeholder `null`.
    pub open spec fn initial_entries() -> Map<Seq<char>, Seq<char>> {
        map![
            "@lastfile"@ => "null"@,
            "@lastexportfile"@ => "null"@,
            "@lastshowfile"@ => "null"@,
            "@lastplotfile"@ => "null"@,
            "@lastredirectfile"@ => "null"@,
            "@lastcompilefile"@ => "null"@,
            "@result"@ => "null"@,
        ]
    }

    /// The position of `var_name` among the stored names, if any.
    fn find_name(&self, var_name: &str) -> (r: Option<usize>)
        requires
            self.wf(),
        ensures
            match r {
                Some(i) => i < self.names@.len() && self.names@[i as int]@ == var_name@,
                None => !self.names_views().contains(var_name@),
            },
            r is Some <==> self.names_views().contains(var_name@),
    {
        let key: String = var_name.to_owned();
        let n = self.names.len();
        let mut i: usize = 0;
        while i < n
            invariant
                0 <= i <= n,
                n == self.names@.len(),
                key@ == var_name@,
                forall|j: int| 0 <= j < i ==> self.names@[j]@ != var_name@,
            decreases n - i,
        {
            if self.names[i] == key {
                proof {
                    assert(self.names_views()[i as int] == var_name@);
                }
                return Some(i);
            }
            i = i + 1;
        }
        proof {
            assert forall|j: int| 0 <= j < self.names_views().len() implies self.names_views()[j]
                != var_name@ by {
                assert(self.names@[j]@ != var_name@);
            }
        }
        None
    }

    /// A fresh table holding exactly the intrinsic variables, with no
    /// active cursor.
    pub fn new() -> (r: Self)
        ensures
            r.wf(),
            r.active() is None,
            r.entries() == Self::initial_entries(),
    {
        let mut names: Vec<String> = Vec::new();
        let mut values: Vec<String> = Vec::new();
        names.push("@lastfile".to_owned());
        names.push("@lastexportfile".to_owned());
        names.push("@lastshowfile".to_owned());
        names.push("@lastplotfile".to_owned());
        names.push("@lastredirectfile".to_owned());
        names.push("@lastcompilefile".to_owned());
        names.push("@result".to_owned());
        let mut i: usize = 0;
        while i < 7
            invariant
                i <= 7,
                values@.len() == i,
                forall|j: int| 0 <= j < i ==> values@[j]@ == "null"@,
            decreases 7 - i,
        {
            values.push("null".to_owned());
            i = i + 1;
        }
        let r = ParserVar { names, values, active_variable: None };
        proof {
            reveal_strlit("@lastfile");
            reveal_strlit("@lastexportfile");
            reveal_strlit("@lastshowfile");
            reveal_strlit("@lastplotfile");
            reveal_strlit("@lastredirectfile");
            reveal_strlit("@lastcompilefile");
            reveal_strlit("@result");
            let nv = r.names_views();
            assert(nv.len() == 7);
            assert(nv[0] == "@lastfile"@);
            assert(nv[1] == "@lastexportfile"@);
            assert(nv[2] == "@lastshowfile"@);
            assert(nv[3] == "@lastplotfile"@);
            assert(nv[4] == "@lastredirectfile"@);
            assert(nv[5] == "@lastcompilefile"@);
            assert(nv[6] == "@result"@);
            assert(nv.no_duplicates()) by {
                assert forall|i: int, j: int| 0 <= i < nv.len() && 0 <= j < nv.len() && i != j
                    implies nv[i] != nv[j] by {
                    assert(nv[0].len() == 9);
                    assert(nv[1].len() == 15);
                    assert(nv[2].len() == 13);
                    assert(nv[3].len() == 13);
                    assert(nv[4].len() == 17);
                    assert(nv[5].len() == 16);
                    assert(nv[6].len() == 7);
                    assert(nv[2][5] == 's');
                    assert(nv[3][5] == 'p');
                }
            }
            assert(r.entries() =~= Self::initial_entries()) by {
                assert forall|k: Seq<char>| nv.contains(k) implies Self::initial_entries().dom().contains(
                    k,
                ) && r.entries()[k] == Self::initial_entries()[k] by {
                    lemma_index_of_key(nv, k);
                }
                assert forall|k: Seq<char>| Self::initial_entries().dom().contains(
                    k,
                ) implies nv.contains(k) by {
                    if k == ("@lastfile")@ {
                        assert(nv[0] == k);
                    } else if k == ("@lastexportfile")@ {
                        assert(nv[1] == k);
                    } else if k == ("@lastshowfile")@ {
                        assert(nv[2] == k);
                    } else if k == ("@lastplotfile")@ {
                        assert(nv[3] == k);
                    } else if k == ("@lastredirectfile")@ {
                        assert(nv[4] == k);
                    } else {
                        assert(nv[5] == k || nv[6] == k);
                    }
                }
            }
        }
        r
    }

    /// Stores `var_value` under `var_name`, wrapping the value in `{}` when
    /// it contains the sigil character; replaces any earlier binding.
    /// Always reports success.
    pub fn add(&mut self, var_name: &str, var_value: &str) -> (r: bool)
        requires
            old(self).wf(),
        ensures
            final(self).wf(),
            r == true,
            final(self).entries() == old(self).entries().insert(
                var_name@,
                wrapped_value(var_value@),
            ),
            final(self).active() == old(self).active(),
    {
        let wrapped: String = if str_contains_char(var_value, '@') {
            let mut s: String = "{".to_owned();
            s.append(var_value);
            s.append("}");
            s
        } else {
            var_value.to_owned()
        };
        proof {
            reveal_strlit("{");
            reveal_strlit("}");
            assert(wrapped@ =~= wrapped_value(var_value@));
        }
        let found = self.find_name(var_name);
        match found {
            Some(i) => {
                self.values[i] = wrapped;
                proof {
                    let nv = self.names_views();
                    assert(nv[i as int] == var_name@);
                    lemma_index_of_key(nv, var_name@);
                    assert(index_of_key(nv, var_name@) == i as int);
                    assert(self.entries() =~= old(self).entries().insert(
                        var_name@,
                        wrapped_value(var_value@),
                    )) by {
                        assert forall|k: Seq<char>| nv.contains(k) && k != var_name@ implies
                            self.entries()[k] == old(self).entries()[k] by {
                            lemma_index_of_key(nv, k);
                        }
                    }
                }
            },
            None => {
                self.names.push(var_name.to_owned());
                self.values.push(wrapped);
                proof {
                    let nv0 = old(self).names_views();
                    let nv = self.names_views();
                    assert(nv =~= nv0.push(var_name@));
                    assert(nv.no_duplicates());
                    assert(nv[nv0.len() as int] == var_name@);
                    assert forall|k: Seq<char>| nv0.contains(k) implies nv.contains(k) by {
                        let w = choose|i: int| 0 <= i < nv0.len() && nv0[i] == k;
                        assert(nv[w] == k);
                    }
                    assert(self.entries() =~= old(self).entries().insert(
                        var_name@,
                        wrapped_value(var_value@),
                    )) by {
                        lemma_index_of_key(nv, var_name@);
                        assert forall|k: Seq<char>| nv.contains(k) && k != var_name@ implies
                            nv0.contains(k) && self.entries()[k] == old(self).entries()[k] by {
                            let w = choose|i: int| 0 <= i < nv.len() && nv[i] == k;
                            assert(nv0[w] == k);
                            lemma_index_of_key(nv0, k);
                            lemma_index_of_key(nv, k);
                            assert(nv[index_of_key(nv0, k)] == k);
                        }
                        assert forall|k: Seq<char>| nv0.contains(k) implies nv.contains(k) by {
                            let w = choose|i: int| 0 <= i < nv0.len() && nv0[i] == k;
                            assert(nv[w] == k);
                        }
                    }
                }
            },
        }
        true
    }

    /// Sets the active-variable cursor to `var_name` and reports whether the
    /// table holds it; a miss clears the cursor.
    pub fn lookup(&mut self, var_name: &str) -> (r: bool)
        requires
            old(self).wf(),
        ensures
            final(self).wf(),
            final(self).entries() == old(self).entries(),
            r == old(self).entries().dom().contains(var_name@),
            final(self).active() == if r {
                Some(var_name@)
            } else {
                None::<Seq<char>>
            },
    {
        let found = self.find_name(var_name);
        match found {
            Some(_) => {
                self.active_variable = Some(var_name.to_owned());
                true
            },
            None => {
                self.active_variable = None;
                false
            },
        }
    }

    /// The value of the currently active variable; the empty string when no
    /// variable is active.
    pub fn get_value(&self) -> (v: String)
        requires
            self.wf(),
        ensures
            v@ == match self.active() {
                Some(n) => self.entries()[n],
                None => Seq::<char>::empty(),
            },
    {
        let name: Option<String> = match &self.active_variable {
            Some(n) => Some(n.clone()),
            None => None,
        };
        match name {
            Some(n) => {
                let found = self.find_name(n.as_str());
                match found {
                    Some(i) => {
                        proof {
                            let nv = self.names_views();
                            assert(nv[i as int] == n@);
                            lemma_index_of_key(nv, n@);
                            assert(index_of_key(nv, n@) == i as int);
                        }
                        self.values[i].clone()
                    },
                    None => {
                        proof {
                            assert(false);
                        }
                        String::new()
                    },
                }
            },
            None => String::new(),
        }
    }

    /// Writes `value` into the currently active variable, verbatim; does
    /// nothing when no variable is active.
    pub fn set_value(&mut self, value: &str)
        requires
            old(self).wf(),
        ensures
            final(self).wf(),
            final(self).active() == old(self).active(),
            match old(self).active() {
                Some(n) => final(self).entries() == old(self).entries().insert(n, value@),
                None => final(self).entries() == old(self).entries(),
            },
    {
        let name: Option<String> = match &self.active_variable {
            Some(n) => Some(n.clone()),
            None => None,
        };
        match name {
            Some(n) => {
                let found = self.find_name(n.as_str());
                match found {
                    Some(i) => {
                        self.values[i] = value.to_owned();
                        proof {
                            let nv = self.names_views();
                            assert(nv[i as int] == n@);
                            lemma_index_of_key(nv, n@);
                            assert(index_of_key(nv, n@) == i as int);
                            assert(self.entries() =~= old(self).entries().insert(n@, value@)) by {
                                assert forall|k: Seq<char>| nv.contains(k) && k != n@ implies
                                    self.entries()[k] == old(self).entries()[k] by {
                                    lemma_index_of_key(nv, k);
                                }
                            }
                        }
                    },
                    None => {
                        proof {
                            assert(false);
                        }
                    },
                }
            },
            None => {},
        }
    }

    /// Formats `"<name>. <value>"`, printing `null` for an empty stored
    /// value, or a not-found message when the table lacks the name.
    pub fn get_var_string(&self, var_name: &str) -> (r: String)
        requires
            self.wf(),
        ensures
            r@ == if self.entries().dom().contains(var_name@) {
                var_name@ + ". "@ + (if self.entries()[var_name@].len() == 0 {
                    "null"@
                } else {
                    self.entries()[var_name@]
                })
            } else {
                "Variable not found"@
            },
    {
        let found = self.find_name(var_name);
        match found {
            Some(i) => {
                proof {
                    let nv = self.names_views();
                    assert(nv[i as int] == var_name@);
                    lemma_index_of_key(nv, var_name@);
                    assert(index_of_key(nv, var_name@) == i as int);
                }
                let mut s: String = var_name.to_owned();
                s.append(". ");
                if self.values[i].as_str().is_empty() {
                    s.append("null");
                } else {
                    s.append(self.values[i].as_str());
                }
                s
            },
            None => "Variable not found".to_owned(),
        }
    }

    /// The number of stored variables.
    pub fn num_variables(&self) -> (n: usize)
        requires
            self.wf(),
        ensures
            n == self.entries().dom().len(),
    {
        proof {
            assert(self.entries().dom() =~= self.names_views().to_set());
            self.names_views().unique_seq_to_set();
        }
        self.names.len()
    }
}


/// Law: storing a value under a name and then looking that name up
/// succeeds, and the read returns the stored value — wrapped in braces
/// exactly when the value text mentions the sigil, verbatim otherwise.
/// The hypotheses are what `add` and `lookup` ensure of the two states.
pub proof fn lemma_add_lookup_round_trip(
    v1: ParserVar,
    v2: ParserVar,
    name: Seq<char>,
    value: Seq<char>,
    prior: Map<Seq<char>, Seq<char>>,
)
    requires
        v1.entries() == prior.insert(name, wrapped_value(value)),
        v2.entries() == v1.entries(),
        v2.active() == (if v1.entries().dom().contains(name) {
            Some(name)
        } else {
            None::<Seq<char>>
        }),
    ensures
        v2.active() == Some(name),
        v2.entries()[name] == wrapped_value(value),
        value.contains('@') ==> wrapped_value(value) == seq!['{'] + value + seq!['}'],
        !value.contains('@') ==> wrapped_value(value) == value,
{
}

} // verus!
