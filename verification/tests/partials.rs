use liquid_verified::error::Error;
use liquid_verified::partials::{
    unknown_partial_error, EagerCompiler, LazyCompiler, PartialSource,
};

#[derive(Debug, Default, Clone, Copy)]
struct StaleSource;

impl PartialSource for StaleSource {
    fn names(&self) -> Vec<&str> {
        vec!["stale.txt"]
    }

    fn get(&self, _name: &str) -> Result<Option<String>, Error> {
        Ok(None)
    }
}

#[derive(Debug, Default, Clone, Copy)]
struct TwoSource;

impl PartialSource for TwoSource {
    fn names(&self) -> Vec<&str> {
        vec!["a.liquid", "b.liquid", "broken.liquid"]
    }

    fn get(&self, name: &str) -> Result<Option<String>, Error> {
        match name {
            "a.liquid" => Ok(Some("A".to_string())),
            "b.liquid" => Ok(Some("B".to_string())),
            _ => Err(Error::with_msg("cannot read")),
        }
    }
}

fn echo(s: &str) -> Result<String, Error> {
    Ok(s.to_string())
}

#[test]
fn stale_named_partial_returns_error_instead_of_panicking() {
    let compiler = EagerCompiler::new(StaleSource);
    let store = compiler.compile(&echo);
    let error = store.get("stale.txt").unwrap_err().to_string();
    assert!(error.contains("Unknown partial-template"));
}

#[test]
fn eager_store_holds_each_compiled_partial() {
    let store = EagerCompiler::new(TwoSource).compile(&echo);
    assert_eq!(store.names(), vec!["a.liquid", "b.liquid", "broken.liquid"]);
    assert_eq!(store.get("a.liquid").ok().unwrap(), Some(&"A".to_string()));
    assert_eq!(store.get("b.liquid").ok().unwrap(), Some(&"B".to_string()));
    assert_eq!(store.get("broken.liquid").unwrap_err().message(), "cannot read");
    assert!(store.get("missing.liquid").ok().unwrap().is_none());
}

#[test]
fn parse_errors_are_kept_per_partial() {
    let fail = |s: &str| -> Result<String, Error> {
        if s == "B" {
            Err(Error::with_msg("bad syntax"))
        } else {
            Ok(s.to_lowercase())
        }
    };
    let store = EagerCompiler::new(TwoSource).compile(&fail);
    assert_eq!(store.get("a.liquid").ok().unwrap(), Some(&"a".to_string()));
    assert_eq!(store.get("b.liquid").unwrap_err().message(), "bad syntax");
}

#[test]
fn unknown_partial_error_lists_what_is_available() {
    let e = unknown_partial_error("x", &vec!["a".to_string(), "b".to_string()]);
    let text = e.to_string();
    assert!(text.contains("Unknown partial-template"));
    assert!(text.contains("requested partial=x"));
    assert!(text.contains("available partials=a, b"));
}

#[test]
fn compilers_keep_their_source() {
    let eager: EagerCompiler<StaleSource> = EagerCompiler::empty();
    assert_eq!(eager.source().names(), vec!["stale.txt"]);
    let lazy = LazyCompiler::new(TwoSource);
    assert_eq!(lazy.source().names().len(), 3);
    let lazy: LazyCompiler<TwoSource> = LazyCompiler::empty();
    assert_eq!(lazy.source().names().len(), 3);
}

#[derive(Debug, Default, Clone, Copy)]
struct TestSource;

impl PartialSource for TestSource {
    fn names(&self) -> Vec<&str> {
        vec![]
    }

    fn get(&self, name: &str) -> Result<Option<String>, Error> {
        match name {
            "example.txt" => Ok(Some("Hello Liquid!".to_string())),
            _ => Ok(None),
        }
    }
}

#[test]
fn test_store_caches_get() {
    let mut store = LazyCompiler::new(TestSource).compile::<String>();

    assert!(
        !store.is_cached("example.txt"),
        "The store cache should not contain the key yet."
    );

    // Look up the partial, causing it to be cached
    let _ = store.get("example.txt", &echo).unwrap();

    assert!(
        store.is_cached("example.txt"),
        "The store cache should now contain the key."
    );
}

#[test]
fn test_store_caches_try_get() {
    let mut store = LazyCompiler::new(TestSource).compile::<String>();

    assert!(
        !store.is_cached("example.txt"),
        "The store cache should not contain the key yet."
    );

    // Look up the partial, causing it to be cached.
    let _ = store.try_get("example.txt", &echo).unwrap();

    assert!(
        store.is_cached("example.txt"),
        "The store cache should now contain the key."
    );
}

#[test]
fn lazy_store_keeps_compiles_and_not_misses() {
    let calls = std::cell::Cell::new(0);
    let counting = |s: &str| -> Result<String, Error> {
        calls.set(calls.get() + 1);
        if s == "B" {
            Err(Error::with_msg("bad syntax"))
        } else {
            Ok(s.to_lowercase())
        }
    };
    let mut store = LazyCompiler::new(TwoSource).compile::<String>();
    assert_eq!(store.get("a.liquid", &counting).ok().unwrap(), "a");
    assert_eq!(store.get("a.liquid", &counting).ok().unwrap(), "a");
    assert_eq!(calls.get(), 1);
    assert_eq!(store.get("b.liquid", &counting).unwrap_err().message(), "bad syntax");
    assert!(store.is_cached("b.liquid"));
    assert!(store.try_get("b.liquid", &counting).is_none());
    assert_eq!(calls.get(), 2);
    assert_eq!(store.get("broken.liquid", &counting).unwrap_err().message(), "cannot read");
    assert!(!store.is_cached("broken.liquid"));
    assert_eq!(store.names(), vec!["a.liquid", "b.liquid", "broken.liquid"]);

    let mut stale = LazyCompiler::new(StaleSource).compile::<String>();
    let error = stale.get("stale.txt", &echo).unwrap_err().to_string();
    assert!(error.contains("Unknown partial-template"));
    assert!(error.contains("available partials=stale.txt"));
    assert!(!stale.is_cached("stale.txt"));
    assert!(stale.try_get("stale.txt", &echo).is_none());
}
