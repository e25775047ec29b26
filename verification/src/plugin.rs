use vstd::prelude::*;

use crate::tables::{
    table_message_kinds, table_message_kinds_without_pk, MessageKind, TableMessages,
    TableMessagesWithoutPrimaryKey,
};

verus! {

/// The compression that the SpacetimeDB host applies to large server messages.
#[derive(Debug, Clone, Copy, PartialEq, Eq, Structural)]
pub enum Compression {
    /// No compression ever.
    Disabled,
    /// Brotli, once a size threshold is met (the default).
    Brotli,
    /// Gzip, once a size threshold is met.
    Gzip,
}

impl Default for Compression {
    fn default() -> (r: Self)
        ensures
            r == Compression::Brotli,
    {
        Compression::Brotli
    }
}

/// The compression that is used when none was chosen.
pub open spec fn compression_or_default(c: Option<Compression>) -> Compression {
    match c {
        Some(c) => c,
        None => Compression::Brotli,
    }
}

/// Why a plugin cannot be started.
#[derive(Debug, Clone, Copy, PartialEq, Eq, Structural)]
pub enum PluginError {
    /// No URI was set (`with_uri`).
    MissingUri,
    /// No module name was set (`with_module_name`).
    MissingModuleName,
    /// No run function was set (`with_run_fn`).
    MissingRunFn,
}

/// A table registered with the plugin: the caller's registration value and the
/// messages that were chosen for the table, in the order in which they are set up.
pub struct TableRegistration<T> {
    /// The value that performs the registration once the connection exists.
    pub register: T,
    /// The messages registered for the table.
    pub messages: Vec<MessageKind>,
}

/// What is handed to the connection builder.
pub struct ConnectionParams {
    /// The name or identity of the remote database.
    pub database_name: String,
    /// The URI of the SpacetimeDB host.
    pub uri: String,
    /// The token to authenticate with; `None` asks the host for a new anonymous identity.
    pub token: Option<String>,
    /// The compression to ask for.
    pub compression: Compression,
    /// Whether the light mode is asked for: clients that did not call a reducer then receive
    /// row updates without the reducer that caused them, and no reducer callbacks. The
    /// connection builder of SpacetimeDB SDK 2.0 has no setting for it, so with that SDK the
    /// flag is carried here but does not reach the host.
    pub light_mode: bool,
}

/// Configuration kept for a connection that is made later, with a token.
pub struct StdbPluginConfig<F> {
    /// The name or identity of the remote module.
    pub module_name: String,
    /// The URI of the SpacetimeDB host.
    pub uri: String,
    /// The function that the connection runs with.
    pub run_fn: F,
    /// The compression to ask for.
    pub compression: Compression,
    /// Whether the light mode was asked for (see [`ConnectionParams::light_mode`] for what
    /// the SDK does with it).
    pub light_mode: bool,
}

/// What building the plugin leads to.
pub enum Startup<F> {
    /// The connection is made later from this configuration.
    Deferred(StdbPluginConfig<F>),
    /// The connection is made now, with these parameters; the run function is started once
    /// the tables and reducers are registered, and its absence is only noticed then.
    Immediate { params: ConnectionParams, run_fn: Option<F> },
}

/// One registration performed once the connection exists.
#[derive(Debug, Clone, Copy, PartialEq, Eq, Structural)]
pub enum Registration {
    /// The table registered at this position.
    Table(usize),
    /// The reducer registered at this position.
    Reducer(usize),
    /// The procedure registered at this position.
    Procedure(usize),
}

/// The abstract state of a plugin.
#[verifier::reject_recursive_types(F)]
#[verifier::reject_recursive_types(T)]
#[verifier::reject_recursive_types(R)]
#[verifier::reject_recursive_types(P)]
pub struct PluginView<F, T, R, P> {
    /// The settings, as the builder methods left them.
    pub module_name: Option<String>,
    pub uri: Option<String>,
    pub token: Option<String>,
    pub run_fn: Option<F>,
    pub compression: Option<Compression>,
    pub light_mode: bool,
    pub delayed_connect: bool,
    /// Registered tables, in order: the registration value and the chosen messages.
    pub tables: Seq<(T, Seq<MessageKind>)>,
    /// Registered reducers, in order.
    pub reducers: Seq<R>,
    /// Registered procedures, in order.
    pub procedures: Seq<P>,
}

/// The state of a freshly made plugin.
pub open spec fn initial_view<F, T, R, P>() -> PluginView<F, T, R, P> {
    PluginView {
        module_name: None,
        uri: None,
        token: None,
        run_fn: None,
        compression: Some(Compression::Brotli),
        light_mode: false,
        delayed_connect: false,
        tables: Seq::empty(),
        reducers: Seq::empty(),
        procedures: Seq::empty(),
    }
}

/// The connection parameters of a complete configuration, with the given token.
pub open spec fn params_of(
    module_name: String,
    uri: String,
    token: Option<String>,
    compression: Compression,
    light_mode: bool,
) -> ConnectionParams {
    ConnectionParams { database_name: module_name, uri, token, compression, light_mode }
}

/// What building a plugin in state `v` leads to: the URI is checked first, then the
/// module name; a deferred connection needs the run function at once.
pub open spec fn startup_of<F, T, R, P>(v: PluginView<F, T, R, P>) -> Result<Startup<F>, PluginError> {
    if v.uri is None {
        Err(PluginError::MissingUri)
    } else if v.module_name is None {
        Err(PluginError::MissingModuleName)
    } else if v.delayed_connect {
        if v.run_fn is None {
            Err(PluginError::MissingRunFn)
        } else {
            Ok(
                Startup::Deferred(
                    StdbPluginConfig {
                        module_name: v.module_name.unwrap(),
                        uri: v.uri.unwrap(),
                        run_fn: v.run_fn.unwrap(),
                        compression: compression_or_default(v.compression),
                        light_mode: v.light_mode,
                    },
                ),
            )
        }
    } else {
        Ok(
            Startup::Immediate {
                params: params_of(
                    v.module_name.unwrap(),
                    v.uri.unwrap(),
                    v.token,
                    compression_or_default(v.compression),
                    v.light_mode,
                ),
                run_fn: v.run_fn,
            },
        )
    }
}

/// The registrations performed once the connection exists: every table, then every reducer,
/// then every procedure, each in the order of registration.
pub open spec fn registration_order_of(tables: nat, reducers: nat, procedures: nat) -> Seq<Registration> {
    Seq::new(tables, |i: int| Registration::Table(i as usize)) + Seq::new(
        reducers,
        |i: int| Registration::Reducer(i as usize),
    ) + Seq::new(procedures, |i: int| Registration::Procedure(i as usize))
}

fn clone_string_option(s: &Option<String>) -> (r: Option<String>)
    ensures
        r == *s,
{
    match s {
        Some(s) => Some(s.clone()),
        None => None,
    }
}

impl<F> StdbPluginConfig<F> {
    /// The parameters with which the deferred connection is built, given the token.
    pub fn connection_params(&self, token: Option<String>) -> (r: ConnectionParams)
        ensures
            r == params_of(self.module_name, self.uri, token, self.compression, self.light_mode),
    {
        ConnectionParams {
            database_name: self.module_name.clone(),
            uri: self.uri.clone(),
            token,
            compression: self.compression,
            light_mode: self.light_mode,
        }
    }
}

/// The plugin that connects a Bevy application with SpacetimeDB: its settings, and the
/// tables, reducers and procedures registered with it. `F` is the run function, and `T`,
/// `R`, `P` are the values that register a table, a reducer and a procedure.
pub struct StdbPlugin<F, T, R, P> {
    module_name: Option<String>,
    uri: Option<String>,
    token: Option<String>,
    run_fn: Option<F>,
    compression: Option<Compression>,
    light_mode: bool,
    delayed_connect: bool,
    table_registers: Vec<TableRegistration<T>>,
    reducer_registers: Vec<R>,
    procedure_registers: Vec<P>,
}

impl<F, T, R, P> View for StdbPlugin<F, T, R, P> {
    type V = PluginView<F, T, R, P>;

    closed spec fn view(&self) -> PluginView<F, T, R, P> {
        PluginView {
            module_name: self.module_name,
            uri: self.uri,
            token: self.token,
            run_fn: self.run_fn,
            compression: self.compression,
            light_mode: self.light_mode,
            delayed_connect: self.delayed_connect,
            tables: self.table_registers@.map_values(
                |t: TableRegistration<T>| (t.register, t.messages@),
            ),
            reducers: self.reducer_registers@,
            procedures: self.procedure_registers@,
        }
    }
}

impl<F, T, R, P> Default for StdbPlugin<F, T, R, P> {
    fn default() -> (r: Self)
        ensures
            r@ == initial_view::<F, T, R, P>(),
    {
        let r = StdbPlugin {
            module_name: None,
            uri: None,
            token: None,
            run_fn: None,
            compression: Some(Compression::default()),
            light_mode: false,
            delayed_connect: false,
            table_registers: Vec::new(),
            reducer_registers: Vec::new(),
            procedure_registers: Vec::new(),
        };
        proof {
            assert(r@.tables =~= Seq::<(T, Seq<MessageKind>)>::empty());
        }
        r
    }
}

impl<F, T, R, P> StdbPlugin<F, T, R, P> {
    /// The function that the connection will run with.
    pub fn with_run_fn(self, run_fn: F) -> (r: Self)
        ensures
            r@ == (PluginView { run_fn: Some(run_fn), ..self@ }),
    {
        StdbPlugin { run_fn: Some(run_fn), ..self }
    }

    /// Set the name or identity of the remote module.
    pub fn with_module_name(self, name: String) -> (r: Self)
        ensures
            r@ == (PluginView { module_name: Some(name), ..self@ }),
    {
        StdbPlugin { module_name: Some(name), ..self }
    }

    /// Set the URI of the SpacetimeDB host which is running the remote module.
    pub fn with_uri(self, uri: String) -> (r: Self)
        ensures
            r@ == (PluginView { uri: Some(uri), ..self@ }),
    {
        StdbPlugin { uri: Some(uri), ..self }
    }

    /// Supply a token with which to authenticate with the remote database.
    pub fn with_token(self, token: String) -> (r: Self)
        ensures
            r@ == (PluginView { token: Some(token), ..self@ }),
    {
        StdbPlugin { token: Some(token), ..self }
    }

    /// Set the compression used once a message size threshold is reached.
    pub fn with_compression(self, compression: Compression) -> (r: Self)
        ensures
            r@ == (PluginView { compression: Some(compression), ..self@ }),
    {
        StdbPlugin { compression: Some(compression), ..self }
    }

    /// Set whether the light mode is asked for.
    pub fn with_light_mode(self, light_mode: bool) -> (r: Self)
        ensures
            r@ == (PluginView { light_mode, ..self@ }),
    {
        StdbPlugin { light_mode, ..self }
    }

    /// Set whether the connection is made later, with a token, instead of when the plugin is built.
    pub fn with_delayed_connect(self, delayed: bool) -> (r: Self)
        ensures
            r@ == (PluginView { delayed_connect: delayed, ..self@ }),
    {
        StdbPlugin { delayed_connect: delayed, ..self }
    }

    /// Registers a table with the chosen messages.
    pub fn add_partial_table(self, register: T, messages: TableMessages) -> (r: Self)
        ensures
            r@ == (PluginView {
                tables: self@.tables.push((register, table_message_kinds(messages))),
                ..self@
            }),
    {
        let mut s = self;
        let registration = TableRegistration { register, messages: messages.message_kinds() };
        s.table_registers.push(registration);
        proof {
            assert(s@.tables =~= self@.tables.push((register, table_message_kinds(messages))));
        }
        s
    }

    /// Registers a table with all messages.
    pub fn add_table(self, register: T) -> (r: Self)
        ensures
            r@ == (PluginView {
                tables: self@.tables.push(
                    (register, seq![MessageKind::Insert, MessageKind::Delete, MessageKind::Update, MessageKind::InsertUpdate]),
                ),
                ..self@
            }),
    {
        let r = self.add_partial_table(register, TableMessages::all());
        proof {
            let all = TableMessages { insert: true, update: true, delete: true };
            assert(table_message_kinds(all) =~= seq![MessageKind::Insert, MessageKind::Delete, MessageKind::Update, MessageKind::InsertUpdate]);
        }
        r
    }

    /// Registers a table without primary key with the chosen messages.
    pub fn add_partial_table_without_pk(self, register: T, messages: TableMessagesWithoutPrimaryKey) -> (r: Self)
        ensures
            r@ == (PluginView {
                tables: self@.tables.push((register, table_message_kinds_without_pk(messages))),
                ..self@
            }),
    {
        let mut s = self;
        let registration = TableRegistration { register, messages: messages.message_kinds() };
        s.table_registers.push(registration);
        proof {
            assert(s@.tables =~= self@.tables.push((register, table_message_kinds_without_pk(messages))));
        }
        s
    }

    /// Registers a table without primary key with all available messages.
    pub fn add_table_without_pk(self, register: T) -> (r: Self)
        ensures
            r@ == (PluginView {
                tables: self@.tables.push((register, seq![MessageKind::Insert, MessageKind::Delete])),
                ..self@
            }),
    {
        let r = self.add_partial_table_without_pk(register, TableMessagesWithoutPrimaryKey::all());
        proof {
            let all = TableMessagesWithoutPrimaryKey { insert: true, delete: true };
            assert(table_message_kinds_without_pk(all) =~= seq![MessageKind::Insert, MessageKind::Delete]);
        }
        r
    }

    /// Registers a reducer.
    pub fn add_reducer(self, register: R) -> (r: Self)
        ensures
            r@ == (PluginView { reducers: self@.reducers.push(register), ..self@ }),
    {
        let mut s = self;
        s.reducer_registers.push(register);
        s
    }

    /// Registers a procedure.
    pub fn add_procedure(self, register: P) -> (r: Self)
        ensures
            r@ == (PluginView { procedures: self@.procedures.push(register), ..self@ }),
    {
        let mut s = self;
        s.procedure_registers.push(register);
        s
    }

    /// The registrations performed once the connection exists, in order: all tables,
    /// then all reducers, then all procedures.
    pub fn registration_order(&self) -> (r: Vec<Registration>)
        ensures
            r@ == registration_order_of(
                self@.tables.len(),
                self@.reducers.len(),
                self@.procedures.len(),
            ),
    {
        let mut r: Vec<Registration> = Vec::new();
        let n = self.table_registers.len();
        let m = self.reducer_registers.len();
        let q = self.procedure_registers.len();
        let ghost tables = Seq::new(n as nat, |i: int| Registration::Table(i as usize));
        let ghost reducers = Seq::new(m as nat, |i: int| Registration::Reducer(i as usize));
        let ghost procedures = Seq::new(q as nat, |i: int| Registration::Procedure(i as usize));
        let mut i: usize = 0;
        while i < n
            invariant
                i <= n,
                n == self.table_registers@.len(),
                tables == Seq::new(n as nat, |k: int| Registration::Table(k as usize)),
                r@ =~= tables.take(i as int),
            decreases n - i,
        {
            r.push(Registration::Table(i));
            i = i + 1;
            proof {
                assert(r@ =~= tables.take(i as int));
            }
        }
        proof {
            assert(tables.take(n as int) =~= tables);
        }
        let mut j: usize = 0;
        while j < m
            invariant
                j <= m,
                m == self.reducer_registers@.len(),
                tables == Seq::new(n as nat, |k: int| Registration::Table(k as usize)),
                reducers == Seq::new(m as nat, |k: int| Registration::Reducer(k as usize)),
                r@ =~= tables + reducers.take(j as int),
            decreases m - j,
        {
            r.push(Registration::Reducer(j));
            j = j + 1;
            proof {
                assert(r@ =~= tables + reducers.take(j as int));
            }
        }
        proof {
            assert(reducers.take(m as int) =~= reducers);
        }
        let mut k: usize = 0;
        while k < q
            invariant
                k <= q,
                q == self.procedure_registers@.len(),
                tables == Seq::new(n as nat, |x: int| Registration::Table(x as usize)),
                reducers == Seq::new(m as nat, |x: int| Registration::Reducer(x as usize)),
                procedures == Seq::new(q as nat, |x: int| Registration::Procedure(x as usize)),
                r@ =~= tables + reducers + procedures.take(k as int),
            decreases q - k,
        {
            r.push(Registration::Procedure(k));
            k = k + 1;
            proof {
                assert(r@ =~= tables + reducers + procedures.take(k as int));
            }
        }
        proof {
            assert(procedures.take(q as int) =~= procedures);
        }
        r
    }

    /// The table registered at position `i`.
    pub fn table_registration(&self, i: usize) -> (r: &TableRegistration<T>)
        requires
            i < self@.tables.len(),
        ensures
            (r.register, r.messages@) == self@.tables[i as int],
    {
        &self.table_registers[i]
    }

    /// The reducer registered at position `i`.
    pub fn reducer_registration(&self, i: usize) -> (r: &R)
        requires
            i < self@.reducers.len(),
        ensures
            *r == self@.reducers[i as int],
    {
        &self.reducer_registers[i]
    }

    /// The procedure registered at position `i`.
    pub fn procedure_registration(&self, i: usize) -> (r: &P)
        requires
            i < self@.procedures.len(),
        ensures
            *r == self@.procedures[i as int],
    {
        &self.procedure_registers[i]
    }

    /// The number of registered tables.
    pub fn table_count(&self) -> (r: usize)
        ensures
            r == self@.tables.len(),
    {
        self.table_registers.len()
    }

    /// The number of registered reducers.
    pub fn reducer_count(&self) -> (r: usize)
        ensures
            r == self@.reducers.len(),
    {
        self.reducer_registers.len()
    }

    /// The number of registered procedures.
    pub fn procedure_count(&self) -> (r: usize)
        ensures
            r == self@.procedures.len(),
    {
        self.procedure_registers.len()
    }
}

impl<F: Copy, T, R, P> StdbPlugin<F, T, R, P> {
    /// Decides what building the plugin leads to: an error naming the first missing
    /// setting, a configuration kept for a later connection, or the parameters of a
    /// connection made now.
    pub fn startup(&self) -> (r: Result<Startup<F>, PluginError>)
        ensures
            r == startup_of(self@),
            r is Ok ==> compression_asked(r) == Some(
                match self@.compression {
                    Some(c) => c,
                    None => Compression::Brotli,
                },
            ),
    {
        let uri = match &self.uri {
            Some(u) => u.clone(),
            None => {
                return Err(PluginError::MissingUri);
            },
        };
        let module_name = match &self.module_name {
            Some(m) => m.clone(),
            None => {
                return Err(PluginError::MissingModuleName);
            },
        };
        let compression = match self.compression {
            Some(c) => c,
            None => Compression::default(),
        };
        if self.delayed_connect {
            match self.run_fn {
                Some(run_fn) => Ok(
                    Startup::Deferred(
                        StdbPluginConfig {
                            module_name,
                            uri,
                            run_fn,
                            compression,
                            light_mode: self.light_mode,
                        },
                    ),
                ),
                None => Err(PluginError::MissingRunFn),
            }
        } else {
            let token = clone_string_option(&self.token);
            Ok(
                Startup::Immediate {
                    params: ConnectionParams {
                        database_name: module_name,
                        uri,
                        token,
                        compression,
                        light_mode: self.light_mode,
                    },
                    run_fn: self.run_fn,
                },
            )
        }
    }
}

/// A deferred connection, made later with a token, uses exactly the parameters with which
/// the same plugin would have connected at once had that token been set on it; the run
/// function is the same too.
pub proof fn lemma_deferred_connect_matches_immediate<F, T, R, P>(
    v: PluginView<F, T, R, P>,
    token: Option<String>,
)
    requires
        v.uri is Some,
        v.module_name is Some,
        v.run_fn is Some,
    ensures
        ({
            let deferred = startup_of(PluginView { delayed_connect: true, ..v });
            let immediate = startup_of(PluginView { delayed_connect: false, token, ..v });
            &&& deferred matches Ok(Startup::Deferred(cfg))
            &&& immediate == Ok::<Startup<F>, PluginError>(
                Startup::Immediate {
                    params: params_of(cfg.module_name, cfg.uri, token, cfg.compression, cfg.light_mode),
                    run_fn: Some(cfg.run_fn),
                },
            )
        }),
{
}

/// In deferred mode the token set on the plugin is never used: what building leads to
/// does not depend on it.
pub proof fn lemma_deferred_ignores_token<F, T, R, P>(
    v: PluginView<F, T, R, P>,
    t1: Option<String>,
    t2: Option<String>,
)
    requires
        v.delayed_connect,
    ensures
        startup_of(PluginView { token: t1, ..v }) == startup_of(PluginView { token: t2, ..v }),
{
}

/// Registrations do not decide whether or how the plugin starts: what building leads to
/// depends on the settings alone.
pub proof fn lemma_startup_ignores_registrations<F, T, R, P>(
    v: PluginView<F, T, R, P>,
    tables: Seq<(T, Seq<MessageKind>)>,
    reducers: Seq<R>,
    procedures: Seq<P>,
)
    ensures
        startup_of(PluginView { tables, reducers, procedures, ..v }) == startup_of(v),
{
}

/// Once the connection exists, every registered table, reducer and procedure is registered
/// exactly once: the tables first, then the reducers, then the procedures, each in the order
/// in which they were added.
pub proof fn lemma_registration_order(tables: nat, reducers: nat, procedures: nat)
    ensures
        registration_order_of(tables, reducers, procedures).len() == tables + reducers + procedures,
        forall|i: int|
            0 <= i < tables ==> #[trigger] registration_order_of(tables, reducers, procedures)[i]
                == Registration::Table(i as usize),
        forall|i: int|
            0 <= i < reducers ==> #[trigger] registration_order_of(tables, reducers, procedures)[tables + i]
                == Registration::Reducer(i as usize),
        forall|i: int|
            0 <= i < procedures ==> #[trigger] registration_order_of(tables, reducers, procedures)[tables + reducers + i]
                == Registration::Procedure(i as usize),
{
}

/// The compression that a startup result asks for, if it leads to a connection.
pub open spec fn compression_asked<F>(r: Result<Startup<F>, PluginError>) -> Option<Compression> {
    match r {
        Ok(Startup::Immediate { params, .. }) => Some(params.compression),
        Ok(Startup::Deferred(cfg)) => Some(cfg.compression),
        Err(_) => None,
    }
}

/// The compression asked for is the one set on the plugin, Brotli when none was set, in
/// immediate and in deferred mode, whatever the light mode; nothing else changes it.
pub proof fn lemma_startup_compression<F, T, R, P>(v: PluginView<F, T, R, P>, light_mode: bool)
    requires
        v.uri is Some,
        v.module_name is Some,
        !v.delayed_connect || v.run_fn is Some,
    ensures
        compression_asked(startup_of(PluginView { light_mode, ..v })) == Some(
            match v.compression {
                Some(c) => c,
                None => Compression::Brotli,
            },
        ),
        compression_asked(startup_of(PluginView { light_mode: true, ..v })) == compression_asked(
            startup_of(PluginView { light_mode: false, ..v }),
        ),
        v.compression is None ==> compression_asked(startup_of(PluginView { light_mode, ..v }))
            == Some(Compression::Brotli),
{
}

} // verus!
