use bevy_spacetimedb::{
    Compression, MessageKind, PluginError, Registration, Startup, StdbPlugin, TableMessages,
    TableMessagesWithoutPrimaryKey,
};

type Plugin = StdbPlugin<u32, &'static str, &'static str, &'static str>;

fn ready() -> Plugin {
    Plugin::default()
        .with_uri("http://localhost:3000".to_string())
        .with_module_name("quickstart".to_string())
}

#[test]
fn compression_defaults_to_brotli() {
    assert_eq!(Compression::default(), Compression::Brotli);
}

#[test]
fn default_plugin_lacks_uri() {
    assert_eq!(Plugin::default().startup().err(), Some(PluginError::MissingUri));
}

#[test]
fn uri_is_checked_before_module_name() {
    let p = Plugin::default().with_module_name("m".to_string());
    assert_eq!(p.startup().err(), Some(PluginError::MissingUri));
    let p = Plugin::default().with_uri("u".to_string());
    assert_eq!(p.startup().err(), Some(PluginError::MissingModuleName));
}

#[test]
fn immediate_connection_uses_settings() {
    let p = ready().with_token("jwt".to_string()).with_compression(Compression::Gzip).with_run_fn(4);
    match p.startup() {
        Ok(Startup::Immediate { params, run_fn }) => {
            assert_eq!(params.database_name, "quickstart");
            assert_eq!(params.uri, "http://localhost:3000");
            assert_eq!(params.token, Some("jwt".to_string()));
            assert_eq!(params.compression, Compression::Gzip);
            assert_eq!(run_fn, Some(4));
        }
        _ => panic!("expected an immediate connection"),
    }
}

#[test]
fn immediate_connection_defaults() {
    match ready().startup() {
        Ok(Startup::Immediate { params, run_fn }) => {
            assert_eq!(params.token, None);
            assert_eq!(params.compression, Compression::Brotli);
            assert_eq!(run_fn, None);
        }
        _ => panic!("expected an immediate connection"),
    }
}

#[test]
fn delayed_connection_needs_run_fn() {
    let p = ready().with_delayed_connect(true);
    assert_eq!(p.startup().err(), Some(PluginError::MissingRunFn));
}

#[test]
fn delayed_connection_keeps_config_and_ignores_token() {
    let p = ready()
        .with_delayed_connect(true)
        .with_run_fn(9)
        .with_light_mode(true)
        .with_token("ignored".to_string())
        .with_compression(Compression::Disabled);
    match p.startup() {
        Ok(Startup::Deferred(cfg)) => {
            assert_eq!(cfg.module_name, "quickstart");
            assert_eq!(cfg.uri, "http://localhost:3000");
            assert_eq!(cfg.run_fn, 9);
            assert_eq!(cfg.compression, Compression::Disabled);
            assert!(cfg.light_mode);
            let params = cfg.connection_params(Some("later".to_string()));
            assert_eq!(params.database_name, "quickstart");
            assert_eq!(params.uri, "http://localhost:3000");
            assert_eq!(params.token, Some("later".to_string()));
            assert_eq!(params.compression, Compression::Disabled);
            let params = cfg.connection_params(None);
            assert_eq!(params.token, None);
        }
        _ => panic!("expected a deferred connection"),
    }
}

#[test]
fn deferred_and_immediate_agree_on_parameters() {
    let base = ready().with_run_fn(1).with_compression(Compression::Gzip);
    let deferred = match base.with_delayed_connect(true).startup() {
        Ok(Startup::Deferred(cfg)) => cfg.connection_params(Some("t".to_string())),
        _ => panic!("expected a deferred connection"),
    };
    let base = ready().with_run_fn(1).with_compression(Compression::Gzip);
    let immediate = match base.with_token("t".to_string()).startup() {
        Ok(Startup::Immediate { params, .. }) => params,
        _ => panic!("expected an immediate connection"),
    };
    assert_eq!(deferred.database_name, immediate.database_name);
    assert_eq!(deferred.uri, immediate.uri);
    assert_eq!(deferred.token, immediate.token);
    assert_eq!(deferred.compression, immediate.compression);
    assert_eq!(deferred.light_mode, immediate.light_mode);
}

#[test]
fn light_mode_reaches_the_connection() {
    match ready().with_light_mode(true).startup() {
        Ok(Startup::Immediate { params, .. }) => assert!(params.light_mode),
        _ => panic!("expected an immediate connection"),
    }
    match ready().startup() {
        Ok(Startup::Immediate { params, .. }) => assert!(!params.light_mode),
        _ => panic!("expected an immediate connection"),
    }
    match ready().with_run_fn(2).with_delayed_connect(true).with_light_mode(true).startup() {
        Ok(Startup::Deferred(cfg)) => assert!(cfg.connection_params(None).light_mode),
        _ => panic!("expected a deferred connection"),
    }
}

#[test]
fn later_settings_override_earlier_ones() {
    let p = ready().with_uri("ws://other".to_string()).with_delayed_connect(true).with_delayed_connect(false);
    match p.startup() {
        Ok(Startup::Immediate { params, .. }) => assert_eq!(params.uri, "ws://other"),
        _ => panic!("expected an immediate connection"),
    }
}

#[test]
fn registrations_keep_their_order() {
    let p = Plugin::default()
        .add_table("players")
        .add_partial_table("items", TableMessages::no_update())
        .add_table_without_pk("logs")
        .add_partial_table_without_pk("events", TableMessagesWithoutPrimaryKey { insert: true, delete: false })
        .add_reducer("move")
        .add_procedure("fetch")
        .add_reducer("say");
    assert_eq!(p.table_count(), 4);
    assert_eq!(p.reducer_count(), 2);
    assert_eq!(p.procedure_count(), 1);
    assert_eq!(p.table_registration(0).register, "players");
    assert_eq!(
        p.table_registration(0).messages,
        vec![MessageKind::Insert, MessageKind::Delete, MessageKind::Update, MessageKind::InsertUpdate]
    );
    assert_eq!(p.table_registration(1).messages, vec![MessageKind::Insert, MessageKind::Delete]);
    assert_eq!(p.table_registration(2).register, "logs");
    assert_eq!(p.table_registration(2).messages, vec![MessageKind::Insert, MessageKind::Delete]);
    assert_eq!(p.table_registration(3).messages, vec![MessageKind::Insert]);
    assert_eq!(*p.reducer_registration(0), "move");
    assert_eq!(*p.reducer_registration(1), "say");
    assert_eq!(*p.procedure_registration(0), "fetch");
}

#[test]
fn registration_order_is_tables_then_reducers_then_procedures() {
    let p = Plugin::default()
        .add_reducer("r0")
        .add_table("t0")
        .add_procedure("p0")
        .add_table("t1")
        .add_procedure("p1")
        .add_reducer("r1");
    assert_eq!(
        p.registration_order(),
        vec![
            Registration::Table(0),
            Registration::Table(1),
            Registration::Reducer(0),
            Registration::Reducer(1),
            Registration::Procedure(0),
            Registration::Procedure(1)
        ]
    );
    assert!(Plugin::default().registration_order().is_empty());
}
