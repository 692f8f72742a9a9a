use std::path::PathBuf;

use arcthumb::cli::{
    run_install, run_uninstall, CliOps, Scope, EXIT_CLSID_FAILED, EXIT_DLL_NOT_FOUND,
    EXIT_EXTENSION_FAILED, EXIT_OK, EXTENSIONS,
};

/// Recording mock. Each side effect is logged as
/// `"<op>:<scope>[:<arg>]"`; names listed in `fail_on` return an
/// error after being recorded.
struct MockCliOps {
    dll_path: Option<PathBuf>,
    scope: Scope,
    calls: Vec<String>,
    fail_on: Vec<String>,
    notify_called: bool,
}

impl MockCliOps {
    fn new() -> Self {
        Self {
            dll_path: Some(PathBuf::from(r"C:\fake\arcthumb.dll")),
            scope: Scope::PerUser,
            calls: Vec::new(),
            fail_on: Vec::new(),
            notify_called: false,
        }
    }

    fn without_dll(mut self) -> Self {
        self.dll_path = None;
        self
    }

    fn with_scope(mut self, scope: Scope) -> Self {
        self.scope = scope;
        self
    }

    fn fail_on(mut self, call: &str) -> Self {
        self.fail_on.push(call.to_string());
        self
    }

    fn record(&mut self, name: String) -> Result<(), String> {
        let fail = self.fail_on.contains(&name);
        self.calls.push(name);
        if fail {
            Err("mock failure".to_string())
        } else {
            Ok(())
        }
    }
}

fn tag(scope: Scope) -> &'static str {
    match scope {
        Scope::PerUser => "user",
        Scope::PerMachine => "machine",
    }
}

impl CliOps for MockCliOps {
    type DllPath = PathBuf;

    fn resolve_dll_path(&mut self) -> Result<PathBuf, String> {
        self.dll_path.clone().ok_or_else(|| "not found".to_string())
    }
    fn current_scope(&mut self) -> Scope {
        self.scope
    }
    fn register_clsid(&mut self, scope: Scope, dll_path: &PathBuf) -> Result<(), String> {
        assert_eq!(*dll_path, PathBuf::from(r"C:\fake\arcthumb.dll"));
        self.record(format!("register_clsid:{}", tag(scope)))
    }
    fn register_preview_clsid(&mut self, scope: Scope, dll_path: &PathBuf) -> Result<(), String> {
        assert_eq!(*dll_path, PathBuf::from(r"C:\fake\arcthumb.dll"));
        self.record(format!("register_preview_clsid:{}", tag(scope)))
    }
    fn register_preview_handler_list_entry(&mut self, scope: Scope) -> Result<(), String> {
        self.record(format!(
            "register_preview_handler_list_entry:{}",
            tag(scope)
        ))
    }
    fn register_extension(&mut self, scope: Scope, ext: &'static str) -> Result<(), String> {
        self.record(format!("register_extension:{}:{ext}", tag(scope)))
    }
    fn register_preview_extension(
        &mut self,
        scope: Scope,
        ext: &'static str,
    ) -> Result<(), String> {
        self.record(format!("register_preview_extension:{}:{ext}", tag(scope)))
    }
    fn unregister_extension(&mut self, scope: Scope, ext: &'static str) -> Result<(), String> {
        self.record(format!("unregister_extension:{}:{ext}", tag(scope)))
    }
    fn unregister_preview_extension(
        &mut self,
        scope: Scope,
        ext: &'static str,
    ) -> Result<(), String> {
        self.record(format!("unregister_preview_extension:{}:{ext}", tag(scope)))
    }
    fn unregister_clsid(&mut self, scope: Scope) -> Result<(), String> {
        self.record(format!("unregister_clsid:{}", tag(scope)))
    }
    fn unregister_preview_clsid(&mut self, scope: Scope) -> Result<(), String> {
        self.record(format!("unregister_preview_clsid:{}", tag(scope)))
    }
    fn unregister_preview_handler_list_entry(&mut self, scope: Scope) -> Result<(), String> {
        self.record(format!(
            "unregister_preview_handler_list_entry:{}",
            tag(scope)
        ))
    }
    fn notify_assoc_changed(&mut self) {
        self.notify_called = true;
    }
}

#[test]
fn install_registers_clsids_then_every_extension_and_notifies() {
    let mut ops = MockCliOps::new();
    assert_eq!(run_install(&mut ops), EXIT_OK);
    assert!(ops.notify_called);

    let calls = &ops.calls;
    // Both CLSIDs and the global preview-handler list entry first.
    assert_eq!(calls[0], "register_clsid:user");
    assert_eq!(calls[1], "register_preview_clsid:user");
    assert_eq!(calls[2], "register_preview_handler_list_entry:user");
    // Then thumbnail + preview bindings for every extension.
    assert_eq!(calls.len(), 3 + EXTENSIONS.len() * 2);
    for (i, &ext) in EXTENSIONS.iter().enumerate() {
        assert_eq!(calls[3 + i * 2], format!("register_extension:user:{ext}"));
        assert_eq!(
            calls[4 + i * 2],
            format!("register_preview_extension:user:{ext}")
        );
    }
}

#[test]
fn install_targets_the_scope_reported_by_elevation() {
    let mut ops = MockCliOps::new().with_scope(Scope::PerMachine);
    assert_eq!(run_install(&mut ops), EXIT_OK);
    assert!(
        ops.calls.iter().all(|c| c.contains(":machine")),
        "every registration must hit the elevated hive"
    );
}

#[test]
fn install_returns_2_when_dll_is_missing() {
    let mut ops = MockCliOps::new().without_dll();
    assert_eq!(run_install(&mut ops), EXIT_DLL_NOT_FOUND);
    assert_eq!(EXIT_DLL_NOT_FOUND, 2);
    assert!(ops.calls.is_empty(), "no registry writes");
    assert!(!ops.notify_called);
}

#[test]
fn install_returns_3_when_thumbnail_clsid_fails() {
    let mut ops = MockCliOps::new().fail_on("register_clsid:user");
    assert_eq!(run_install(&mut ops), EXIT_CLSID_FAILED);
    assert_eq!(EXIT_CLSID_FAILED, 3);
    // Aborts before any extension binding, and Explorer is not
    // told to reload a registration that was never written.
    assert_eq!(ops.calls.len(), 1);
    assert!(!ops.notify_called);
}

#[test]
fn install_returns_3_when_preview_clsid_fails() {
    let mut ops = MockCliOps::new().fail_on("register_preview_clsid:user");
    assert_eq!(run_install(&mut ops), EXIT_CLSID_FAILED);
    assert_eq!(ops.calls.len(), 2);
    assert!(!ops.notify_called);
}

#[test]
fn install_returns_3_when_preview_handler_list_registration_fails() {
    let mut ops = MockCliOps::new().fail_on("register_preview_handler_list_entry:user");
    assert_eq!(run_install(&mut ops), EXIT_CLSID_FAILED);
    assert_eq!(ops.calls.len(), 3);
    assert!(!ops.notify_called);
}

#[test]
fn install_returns_4_when_an_extension_binding_fails() {
    let ext = EXTENSIONS[2];
    let mut ops = MockCliOps::new().fail_on(&format!("register_extension:user:{ext}"));
    assert_eq!(run_install(&mut ops), EXIT_EXTENSION_FAILED);
    assert_eq!(EXIT_EXTENSION_FAILED, 4);
    // Stops at the failing extension: both CLSIDs, preview list, two full
    // extensions before it, then the failing call itself.
    assert_eq!(ops.calls.len(), 3 + 2 * 2 + 1);
    assert!(!ops.notify_called);
}

#[test]
fn install_returns_4_when_a_preview_extension_binding_fails() {
    let ext = EXTENSIONS[0];
    let mut ops = MockCliOps::new().fail_on(&format!("register_preview_extension:user:{ext}"));
    assert_eq!(run_install(&mut ops), EXIT_EXTENSION_FAILED);
    assert!(!ops.notify_called);
}

#[test]
fn uninstall_cleans_both_hives_and_notifies() {
    let mut ops = MockCliOps::new();
    assert_eq!(run_uninstall(&mut ops), EXIT_OK);
    assert!(ops.notify_called);

    let calls = &ops.calls;
    // Per scope: thumbnail + preview unbind per extension, then global
    // preview-list and both CLSID removals. Machine first.
    let per_scope = EXTENSIONS.len() * 2 + 3;
    assert_eq!(calls.len(), per_scope * 2);
    assert!(calls[..per_scope].iter().all(|c| c.contains(":machine")));
    assert!(calls[per_scope..].iter().all(|c| c.contains(":user")));
    for scope in ["machine", "user"] {
        assert!(calls.contains(&format!("unregister_clsid:{scope}")));
        assert!(calls.contains(&format!("unregister_preview_clsid:{scope}")));
        assert!(calls.contains(&format!("unregister_preview_handler_list_entry:{scope}")));
        for &ext in EXTENSIONS.iter() {
            assert!(calls.contains(&format!("unregister_extension:{scope}:{ext}")));
            assert!(calls.contains(&format!("unregister_preview_extension:{scope}:{ext}")));
        }
    }
}

#[test]
fn uninstall_is_best_effort_and_still_succeeds_on_failures() {
    let mut ops = MockCliOps::new();
    for scope in ["machine", "user"] {
        ops.fail_on.push(format!("unregister_clsid:{scope}"));
        ops.fail_on.push(format!("unregister_preview_clsid:{scope}"));
        ops.fail_on
            .push(format!("unregister_preview_handler_list_entry:{scope}"));
        for &ext in EXTENSIONS.iter() {
            ops.fail_on.push(format!("unregister_extension:{scope}:{ext}"));
            ops.fail_on
                .push(format!("unregister_preview_extension:{scope}:{ext}"));
        }
    }
    assert_eq!(run_uninstall(&mut ops), EXIT_OK);
    let per_scope = EXTENSIONS.len() * 2 + 3;
    assert_eq!(ops.calls.len(), per_scope * 2, "nothing skipped");
    assert!(ops.notify_called);
}

#[test]
fn every_container_and_ebook_extension_is_bound() {
    assert_eq!(
        EXTENSIONS.to_vec(),
        vec![
            ".zip", ".cbz", ".rar", ".cbr", ".7z", ".cb7", ".cbt", ".livp", ".epub", ".fb2",
            ".mobi", ".azw", ".azw3",
        ]
    );
}
