//! Stored defaults and the resolution of run parameters against them.
use vstd::prelude::*;
use crate::expr::{expression_value, parse_expression, ExprError};
use crate::tree::{
    get_int, get_spec, set_value, settable, split_dots, well_formed, ConfigValue, TreeError,
};

verus! {

/// Dotted path of the stored trips per week; console and command-line runs
/// both read this one name.
pub const TRIPS_PER_WEEK_PATH: &'static str = "defaults.trips-per-week";

/// Dotted path of the stored monthly pass cost.
pub const MONTHLY_COST_PATH: &'static str = "defaults.monthly-cost";

/// Dotted path of the stored ticket price.
pub const TICKET_PRICE_PATH: &'static str = "defaults.ticket-price";

/// Dotted path of the table that holds the defaults.
pub const DEFAULTS_PATH: &'static str = "defaults";

/// The stored defaults; each may be missing.
#[derive(PartialEq, Eq, Structural, Debug, Clone, Copy)]
pub struct Defaults {
    pub trips_per_week: Option<u32>,
    pub monthly_cost: Option<u32>,
    pub ticket_price: Option<u32>,
}

/// The typed view of a configuration tree.
#[derive(PartialEq, Eq, Structural, Debug, Clone, Copy)]
pub struct Config {
    pub defaults: Option<Defaults>,
}

/// The three values of one run, each taken from the command or else from the
/// stored defaults.
#[derive(PartialEq, Eq, Structural, Debug, Clone, Copy)]
pub struct ResolvedRun {
    pub trips_per_week: u32,
    pub monthly_cost: u32,
    pub ticket_price: u32,
}

/// Why a configuration change failed.
#[derive(PartialEq, Eq, Structural, Debug, Clone, Copy)]
pub enum ConfigError {
    /// The value text is not a usable count or price.
    Expression(ExprError),
    /// An integer stands where the key path needs a table.
    NotATable,
}

/// A parameter that was neither given nor stored; it holds the dotted path
/// that was looked up.
#[derive(PartialEq, Eq, Debug, Clone)]
pub struct MissingParameter {
    pub parameter_name: String,
}

/// The stored integer at `p`, where there is one and it fits in a `u32`.
pub open spec fn stored_count(tree: ConfigValue, p: Seq<Seq<char>>) -> Option<u32> {
    match get_spec(tree, p) {
        Some(ConfigValue::Int(n)) => if n <= u32::MAX {
            Some(n as u32)
        } else {
            None
        },
        _ => None,
    }
}

/// The stored count at a dotted path.
pub fn stored_count_at(tree: &ConfigValue, path: &str) -> (r: Option<u32>)
    ensures
        r == stored_count(*tree, split_dots(path@)),
{
    match get_int(tree, path) {
        Some(n) => if n <= u32::MAX as u64 {
            Some(n as u32)
        } else {
            None
        },
        None => None,
    }
}

/// The explicit value where there is one, else the count stored at
/// `default_path`; fails where neither exists.
pub fn resolve(explicit: Option<u32>, tree: &ConfigValue, default_path: &str) -> (r: Result<
    u32,
    MissingParameter,
>)
    ensures
        explicit is Some ==> r == Ok::<u32, MissingParameter>(explicit->0),
        explicit is None && stored_count(*tree, split_dots(default_path@)) is Some ==> r == Ok::<
            u32,
            MissingParameter,
        >(stored_count(*tree, split_dots(default_path@))->0),
        explicit is None && stored_count(*tree, split_dots(default_path@)) is None ==> (match r {
            Err(e) => e.parameter_name@ == default_path@,
            Ok(_) => false,
        }),
{
    match explicit {
        Some(v) => Ok(v),
        None => match stored_count_at(tree, default_path) {
            Some(v) => Ok(v),
            None => Err(MissingParameter { parameter_name: default_path.to_owned() }),
        },
    }
}

/// Resolves the three values of a run, each on its own, in the order trips
/// per week, monthly cost, ticket price; the first missing one is reported.
pub fn resolve_run(
    trips_per_week: Option<u32>,
    monthly_cost: Option<u32>,
    ticket_price: Option<u32>,
    tree: &ConfigValue,
) -> (r: Result<ResolvedRun, MissingParameter>)
    ensures
        r is Ok <==> (trips_per_week is Some || stored_count(
            *tree,
            split_dots(TRIPS_PER_WEEK_PATH@),
        ) is Some) && (monthly_cost is Some || stored_count(
            *tree,
            split_dots(MONTHLY_COST_PATH@),
        ) is Some) && (ticket_price is Some || stored_count(
            *tree,
            split_dots(TICKET_PRICE_PATH@),
        ) is Some),
        r is Ok ==> r->Ok_0.trips_per_week == match trips_per_week {
            Some(v) => v,
            None => stored_count(*tree, split_dots(TRIPS_PER_WEEK_PATH@))->0,
        },
        r is Ok ==> r->Ok_0.monthly_cost == match monthly_cost {
            Some(v) => v,
            None => stored_count(*tree, split_dots(MONTHLY_COST_PATH@))->0,
        },
        r is Ok ==> r->Ok_0.ticket_price == match ticket_price {
            Some(v) => v,
            None => stored_count(*tree, split_dots(TICKET_PRICE_PATH@))->0,
        },
        r is Err ==> r->Err_0.parameter_name@ == if trips_per_week is None && stored_count(
            *tree,
            split_dots(TRIPS_PER_WEEK_PATH@),
        ) is None {
            TRIPS_PER_WEEK_PATH@
        } else if monthly_cost is None && stored_count(
            *tree,
            split_dots(MONTHLY_COST_PATH@),
        ) is None {
            MONTHLY_COST_PATH@
        } else {
            TICKET_PRICE_PATH@
        },
{
    let t = match resolve(trips_per_week, tree, TRIPS_PER_WEEK_PATH) {
        Ok(v) => v,
        Err(e) => return Err(e),
    };
    let m = match resolve(monthly_cost, tree, MONTHLY_COST_PATH) {
        Ok(v) => v,
        Err(e) => return Err(e),
    };
    let p = match resolve(ticket_price, tree, TICKET_PRICE_PATH) {
        Ok(v) => v,
        Err(e) => return Err(e),
    };
    Ok(ResolvedRun { trips_per_week: t, monthly_cost: m, ticket_price: p })
}

/// Evaluates `raw_value` and stores the result at a dotted path, creating the
/// tables on the way. On failure the tree is left as it was.
pub fn set(tree: &mut ConfigValue, path: &str, raw_value: &str) -> (r: Result<(), ConfigError>)
    ensures
        expression_value(raw_value@) is Err ==> r == Err::<(), ConfigError>(
            ConfigError::Expression(expression_value(raw_value@)->Err_0),
        ),
        expression_value(raw_value@) is Ok && !settable(*old(tree), split_dots(path@)) ==> r
            == Err::<(), ConfigError>(ConfigError::NotATable),
        expression_value(raw_value@) is Ok && settable(*old(tree), split_dots(path@)) ==> r is Ok,
        r is Err ==> *final(tree) == *old(tree),
        well_formed(*old(tree)) ==> well_formed(*final(tree)),
        r is Ok ==> get_spec(*final(tree), split_dots(path@)) == Some(
            ConfigValue::Int(expression_value(raw_value@)->Ok_0 as u64),
        ),
        r is Ok ==> forall|q: Seq<Seq<char>>|
            crate::tree::diverges(split_dots(path@), q) ==> get_spec(*final(tree), q) == get_spec(
                *old(tree),
                q,
            ),
{
    let n = match parse_expression(raw_value) {
        Ok(n) => n,
        Err(e) => return Err(ConfigError::Expression(e)),
    };
    match set_value(tree, path, n as u64) {
        Ok(()) => Ok(()),
        Err(TreeError::NotATable) => Err(ConfigError::NotATable),
    }
}

/// The tree to work on after reading the configuration file: what was read,
/// or an empty tree where there was no file or it could not be read or parsed.
pub fn loaded_tree(parsed: Option<ConfigValue>) -> (r: ConfigValue)
    ensures
        parsed is Some ==> r == parsed->0,
        parsed is None ==> (r matches ConfigValue::Table(es) && es@.len() == 0),
{
    match parsed {
        Some(t) => t,
        None => ConfigValue::empty(),
    }
}

impl Defaults {
    /// No defaults stored.
    pub fn none() -> (r: Defaults)
        ensures
            r.trips_per_week is None && r.monthly_cost is None && r.ticket_price is None,
    {
        Defaults { trips_per_week: None, monthly_cost: None, ticket_price: None }
    }
}

impl Config {
    /// Reads the defaults out of a configuration tree: present where the tree
    /// holds a `defaults` table, each value where a count is stored under it.
    pub fn load(tree: &ConfigValue) -> (r: Config)
        ensures
            r.defaults is Some <==> get_spec(*tree, split_dots(DEFAULTS_PATH@)) matches Some(
                ConfigValue::Table(_),
            ),
            r.defaults is Some ==> r.defaults->0 == (Defaults {
                trips_per_week: stored_count(*tree, split_dots(TRIPS_PER_WEEK_PATH@)),
                monthly_cost: stored_count(*tree, split_dots(MONTHLY_COST_PATH@)),
                ticket_price: stored_count(*tree, split_dots(TICKET_PRICE_PATH@)),
            }),
    {
        match crate::tree::get(tree, DEFAULTS_PATH) {
            Some(ConfigValue::Table(_)) => Config {
                defaults: Some(
                    Defaults {
                        trips_per_week: stored_count_at(tree, TRIPS_PER_WEEK_PATH),
                        monthly_cost: stored_count_at(tree, MONTHLY_COST_PATH),
                        ticket_price: stored_count_at(tree, TICKET_PRICE_PATH),
                    },
                ),
            },
            _ => Config { defaults: None },
        }
    }

    /// The stored defaults, or none at all where the tree has no `defaults` table.
    pub fn get_defaults(&self) -> (r: Defaults)
        ensures
            r == match self.defaults {
                Some(d) => d,
                None => (Defaults { trips_per_week: None, monthly_cost: None, ticket_price: None }),
            },
    {
        match self.defaults {
            Some(d) => d,
            None => Defaults::none(),
        }
    }
}

} // verus!
