//! Symbols and what is known of how they were reached.

use crate::json::{as_array, as_str, json_array, json_member, json_pointer, json_str, member, value_at};
use crate::name_map::name_views;
use crate::quality::SymbolQuality;
use serde_json::Value;
use vstd::prelude::*;

verus! {

/// A list of identifiers.
#[derive(Debug)]
pub struct IdentifierList {
    pub identifiers: Vec<String>,
}

/// A symbol, how well it matches, and the identifier it came from, if any.
#[derive(Debug)]
pub struct SymbolWithContext {
    pub symbol: String,
    pub quality: SymbolQuality,
    pub from_identifier: Option<String>,
}

/// A list of symbols.
#[derive(Debug)]
pub struct SymbolList {
    pub symbols: Vec<SymbolWithContext>,
}

/// Why a symbol is among the results, relative to the symbol that was asked
/// for.  Each relation but `Queried` names the symbol it was reached from
/// and a distance in hops; for the cousin relations the distance is the
/// number of steps up to the common ancestor.
#[derive(Debug)]
pub enum SymbolRelation {
    /// The symbol was asked for directly.
    Queried,
    /// The symbol overrides the named symbol.
    OverrideOf(String, u32),
    /// The symbol is overridden by the named symbol.
    OverriddenBy(String, u32),
    /// The symbol shares a root override with the named symbol, without
    /// being its ancestor or descendant.
    CousinOverrideOf(String, u32),
    /// The symbol is a subclass of the named symbol.
    SubclassOf(String, u32),
    /// The symbol is a superclass of the named symbol.
    SuperclassOf(String, u32),
    /// The symbol shares an ancestor class with the named symbol.
    CousinClassOf(String, u32),
}

impl Clone for SymbolRelation {
    fn clone(&self) -> (copy: Self)
        ensures
            copy == *self,
    {
        match self {
            SymbolRelation::Queried => SymbolRelation::Queried,
            SymbolRelation::OverrideOf(symbol, distance) => SymbolRelation::OverrideOf(
                symbol.clone(),
                *distance,
            ),
            SymbolRelation::OverriddenBy(symbol, distance) => SymbolRelation::OverriddenBy(
                symbol.clone(),
                *distance,
            ),
            SymbolRelation::CousinOverrideOf(symbol, distance) => SymbolRelation::CousinOverrideOf(
                symbol.clone(),
                *distance,
            ),
            SymbolRelation::SubclassOf(symbol, distance) => SymbolRelation::SubclassOf(
                symbol.clone(),
                *distance,
            ),
            SymbolRelation::SuperclassOf(symbol, distance) => SymbolRelation::SuperclassOf(
                symbol.clone(),
                *distance,
            ),
            SymbolRelation::CousinClassOf(symbol, distance) => SymbolRelation::CousinClassOf(
                symbol.clone(),
                *distance,
            ),
        }
    }
}

/// The relation along which an expansion was cut short.
#[derive(Clone, Copy, Debug, PartialEq, Eq, Structural)]
pub enum OverloadKind {
    /// Too many overrides.
    Overrides,
    /// Too many subclasses.
    Subclasses,
}

/// A record that the expansion of one relation was cut short.
///
/// A limit of 0 says that this limit was not the cause, not that there is
/// no such limit.
#[derive(Clone, Copy, Debug)]
pub struct OverloadInfo {
    pub kind: OverloadKind,
    /// How many results are thought to exist.
    pub exist: u32,
    /// How many results were kept.
    pub included: u32,
    /// The cap on this one symbol, if it was hit.
    pub local_limit: u32,
    /// The cap across symbols, if it was hit.
    pub global_limit: u32,
}

impl OverloadInfo {
    /// No more results were kept than exist.
    pub open spec fn wf(&self) -> bool {
        self.included <= self.exist
    }

    /// Records a truncation, unless it claims to have kept more results
    /// than exist.
    pub fn new(
        kind: OverloadKind,
        exist: u32,
        included: u32,
        local_limit: u32,
        global_limit: u32,
    ) -> (info: Option<OverloadInfo>)
        ensures
            info is Some <==> included <= exist,
            info matches Some(made) ==> {
                &&& made.wf()
                &&& made.kind == kind
                &&& made.exist == exist
                &&& made.included == included
                &&& made.local_limit == local_limit
                &&& made.global_limit == global_limit
            },
    {
        if included <= exist {
            Some(OverloadInfo { kind, exist, included, local_limit, global_limit })
        } else {
            None
        }
    }
}

/// A symbol and its cross-reference information.
#[derive(Debug)]
pub struct SymbolCrossrefInfo {
    pub symbol: String,
    pub crossref_info: Value,
    pub relation: SymbolRelation,
    pub quality: SymbolQuality,
    /// The overloads met while this symbol was reached.
    pub overloads_hit: Vec<OverloadInfo>,
}

/// The label for a symbol: its pretty name where one was found, and the
/// symbol itself where none was.
pub fn label_or_symbol(pretty: Option<&str>, symbol: &str) -> (label: String)
    ensures
        label@ == match pretty {
            Some(name) => name@,
            None => symbol@,
        },
{
    match pretty {
        Some(name) => name.to_owned(),
        None => symbol.to_owned(),
    }
}

/// The symbols of a list of methods, of which `found[i]` is the symbol
/// that the entry at `i` names, if it names one: no list for no methods,
/// and the empty symbol for an entry that names none.
pub fn symbols_of_methods(found: Vec<Option<String>>) -> (symbols: Option<Vec<String>>)
    ensures
        symbols is Some <==> found.len() > 0,
        symbols matches Some(list) ==> {
            &&& list.len() == found.len()
            &&& forall|i: int|
                0 <= i < found.len() ==> (#[trigger] list[i])@ == match found[i] {
                    Some(symbol) => symbol@,
                    None => Seq::<char>::empty(),
                }
        },
{
    if found.len() == 0 {
        return None;
    }
    let mut symbols: Vec<String> = Vec::new();
    for entry in it: found
        invariant
            it.seq() == found@,
            symbols.len() == it.index(),
            forall|i: int|
                0 <= i < it.index() ==> (#[trigger] symbols[i])@ == match found[i] {
                    Some(symbol) => symbol@,
                    None => Seq::<char>::empty(),
                },
    {
        match entry {
            Some(symbol) => symbols.push(symbol),
            None => symbols.push(String::new()),
        }
    }
    Some(symbols)
}

impl SymbolCrossrefInfo {
    /// The pretty name in the cross-reference information: the string
    /// under `/meta/pretty`, if there is one.
    pub open spec fn pretty_name(&self) -> Option<Seq<char>> {
        match json_pointer(self.crossref_info, "/meta/pretty"@) {
            Some(value) => json_str(value),
            None => None,
        }
    }

    /// The symbol that one entry of the list of methods names: the string
    /// under `sym`, or the empty symbol if there is none.
    pub open spec fn method_symbol(entry: Value) -> Seq<char> {
        match json_str(json_member(entry, "sym"@)) {
            Some(symbol) => symbol,
            None => Seq::empty(),
        }
    }

    /// The symbols of the methods in the cross-reference information: one
    /// for each entry of the array under `/meta/methods`, if there is such
    /// an array and it is not empty.
    pub open spec fn method_symbols(&self) -> Option<Seq<Seq<char>>> {
        match json_pointer(self.crossref_info, "/meta/methods"@) {
            Some(value) => match json_array(value) {
                Some(entries) => if entries.len() == 0 {
                    None
                } else {
                    Some(entries.map_values(|entry: Value| Self::method_symbol(entry)))
                },
                None => None,
            },
            None => None,
        }
    }

    /// The name to show for this symbol: the pretty name from its
    /// cross-reference information, or else the symbol itself.
    pub fn get_pretty(&self) -> (pretty: String)
        ensures
            pretty@ == match self.pretty_name() {
                Some(name) => name,
                None => self.symbol@,
            },
    {
        let found: Option<&str> = match value_at(&self.crossref_info, "/meta/pretty") {
            Some(value) => as_str(value),
            None => None,
        };
        label_or_symbol(found, self.symbol.as_str())
    }

    /// The symbols of the methods that the cross-reference information
    /// lists, or nothing where it lists none.
    pub fn get_method_symbols(&self) -> (symbols: Option<Vec<String>>)
        ensures
            match symbols {
                Some(list) => self.method_symbols() == Some(name_views(list@)),
                None => self.method_symbols() is None,
            },
    {
        let entries: &Vec<Value> = match value_at(&self.crossref_info, "/meta/methods") {
            Some(value) => match as_array(value) {
                Some(entries) => entries,
                None => {
                    return None;
                },
            },
            None => {
                return None;
            },
        };
        let mut found: Vec<Option<String>> = Vec::new();
        let mut i: usize = 0;
        while i < entries.len()
            invariant
                i <= entries.len(),
                found.len() == i,
                forall|j: int|
                    0 <= j < i ==> Self::method_symbol(entries[j]) == match #[trigger] found[j] {
                        Some(symbol) => symbol@,
                        None => Seq::<char>::empty(),
                    },
            decreases entries.len() - i,
        {
            let symbol: Option<String> = match as_str(member(&entries[i], "sym")) {
                Some(text) => Some(text.to_owned()),
                None => None,
            };
            found.push(symbol);
            i = i + 1;
        }
        let symbols = symbols_of_methods(found);
        proof {
            if symbols is Some {
                assert(name_views(symbols->0@) =~= entries@.map_values(
                    |entry: Value| Self::method_symbol(entry),
                ));
            }
        }
        symbols
    }
}

/// A list of symbols with their cross-reference information.
#[derive(Debug)]
pub struct SymbolCrossrefInfoList {
    pub symbol_crossref_infos: Vec<SymbolCrossrefInfo>,
}

} // verus!
