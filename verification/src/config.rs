//! The service's settings, and the log filters that they ask for.

use crate::text::{split, split_on, texts};
use vstd::prelude::*;

verus! {

/// Where the catalog's database is.
#[derive(Debug)]
pub struct DatabaseConfig {
    pub url: String,
}

/// Where the service listens and where it keeps the chunks.
#[derive(Debug)]
pub struct ServerConfig {
    pub host: String,
    pub port: u16,
    pub root_path: String,
}

/// How much is logged: a level for everything, and for each level a list
/// of modules, separated by commas, that are logged at it.
#[derive(Debug)]
pub struct LogsConfig {
    pub global: String,
    pub error: String,
    pub warn: String,
    pub info: String,
    pub debug: String,
    pub trace: String,
}

/// All settings.
#[derive(Debug)]
pub struct AppConfig {
    pub database: DatabaseConfig,
    pub server: ServerConfig,
    pub logs: LogsConfig,
}

/// How much of a module is logged.
#[derive(Clone, Copy, Debug, PartialEq, Eq, Structural)]
pub enum LogLevel {
    Error,
    Warn,
    Info,
    Debug,
    Trace,
}

/// The filter for one module.
#[derive(Debug)]
pub struct ModuleFilter {
    pub module: String,
    pub level: LogLevel,
}

/// Mathematical model of a [`ModuleFilter`].
pub struct FilterModel {
    pub module: Seq<char>,
    pub level: LogLevel,
}

impl View for ModuleFilter {
    type V = FilterModel;

    open spec fn view(&self) -> FilterModel {
        FilterModel { module: self.module@, level: self.level }
    }
}

/// The models of a list of filters.
pub open spec fn filter_models(filters: Seq<ModuleFilter>) -> Seq<FilterModel> {
    Seq::new(filters.len(), |i: int| filters[i]@)
}

/// The filters that one list of modules asks for: one for each part
/// between commas; none for an empty list.
pub open spec fn filters_at(list: Seq<char>, level: LogLevel) -> Seq<FilterModel> {
    if list.len() == 0 {
        Seq::<FilterModel>::empty()
    } else {
        Seq::new(
            split(list, ',').len(),
            |i: int| FilterModel { module: split(list, ',')[i], level },
        )
    }
}

/// The filters that the settings ask for, in the order in which they are
/// applied, so that of two filters for one module the later one counts:
/// the modules listed for warnings, then those for errors, for
/// information, for debugging and for tracing.
pub open spec fn filters_of(
    warn: Seq<char>,
    error: Seq<char>,
    info: Seq<char>,
    debug: Seq<char>,
    trace: Seq<char>,
) -> Seq<FilterModel> {
    filters_at(warn, LogLevel::Warn) + filters_at(error, LogLevel::Error) + filters_at(
        info,
        LogLevel::Info,
    ) + filters_at(debug, LogLevel::Debug) + filters_at(trace, LogLevel::Trace)
}

fn push_filters(filters: &mut Vec<ModuleFilter>, list: &str, level: LogLevel)
    ensures
        filter_models(final(filters)@) == filter_models(old(filters)@) + filters_at(list@, level),
{
    if list.unicode_len() == 0 {
        proof {
            assert(filter_models(filters@) + Seq::<FilterModel>::empty() =~= filter_models(
                filters@,
            ));
        }
        return ;
    }
    let modules = split_on(list, ',');
    let mut i: usize = 0;
    let ghost before = filter_models(filters@);
    proof {
        assert(before + filters_at(list@, level).take(0) =~= before);
    }
    while i < modules.len()
        invariant
            i <= modules.len(),
            list@.len() > 0,
            texts(modules@) == split(list@, ','),
            filter_models(filters@) == before + filters_at(list@, level).take(i as int),
        decreases modules.len() - i,
    {
        let ghost so_far = filters@;
        filters.push(ModuleFilter { module: modules[i].clone(), level });
        proof {
            assert(texts(modules@)[i as int] == modules@[i as int]@);
            assert(filter_models(filters@) =~= filter_models(so_far).push(
                FilterModel { module: modules@[i as int]@, level },
            ));
            assert(filters_at(list@, level).take(i as int + 1) =~= filters_at(list@, level).take(
                i as int,
            ).push(filters_at(list@, level)[i as int]));
            assert(filter_models(filters@) =~= before + filters_at(list@, level).take(
                i as int + 1,
            ));
        }
        i += 1;
    }
    proof {
        assert(filters_at(list@, level).take(modules.len() as int) =~= filters_at(list@, level));
    }
}

impl LogsConfig {
    /// The module filters that these settings ask for.
    pub fn module_filters(&self) -> (filters: Vec<ModuleFilter>)
        ensures
            filter_models(filters@) == filters_of(
                self.warn@,
                self.error@,
                self.info@,
                self.debug@,
                self.trace@,
            ),
    {
        let mut filters: Vec<ModuleFilter> = Vec::new();
        proof {
            assert(filter_models(filters@) =~= Seq::<FilterModel>::empty());
        }
        push_filters(&mut filters, self.warn.as_str(), LogLevel::Warn);
        push_filters(&mut filters, self.error.as_str(), LogLevel::Error);
        push_filters(&mut filters, self.info.as_str(), LogLevel::Info);
        push_filters(&mut filters, self.debug.as_str(), LogLevel::Debug);
        push_filters(&mut filters, self.trace.as_str(), LogLevel::Trace);
        proof {
            assert(Seq::<FilterModel>::empty() + filters_at(self.warn@, LogLevel::Warn)
                =~= filters_at(self.warn@, LogLevel::Warn));
        }
        filters
    }
}

} // verus!
