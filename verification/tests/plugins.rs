use assemble_core::plugins::{Plugin, PluginAction, PluginManager};
use assemble_core::project::ProjectError;

#[derive(Default)]
struct Counter {
    applied: u32,
    actions: Vec<String>,
}

#[derive(Default)]
struct CountPlugin;

impl Plugin<Counter> for CountPlugin {
    fn apply_to(&self, target: &mut Counter) -> Result<(), ProjectError> {
        target.applied += 1;
        Ok(())
    }

    fn plugin_id(&self) -> String {
        String::from("count")
    }
}

struct Record(&'static str);

impl PluginAction<Counter> for Record {
    fn execute(self, target: &mut Counter) -> Result<(), ProjectError> {
        target.actions.push(String::from(self.0));
        Ok(())
    }
}

#[test]
fn plugins_apply_once_and_run_waiting_actions() {
    let mut manager: PluginManager<Counter, Record> = PluginManager::new();
    let mut target = Counter::default();
    manager.with_plugin("count", &mut target, Record("first")).unwrap();
    manager.with_plugin("count", &mut target, Record("second")).unwrap();
    assert!(target.actions.is_empty());
    assert!(!manager.has_plugin("count"));
    manager.apply::<CountPlugin>(&mut target).unwrap();
    assert_eq!(target.applied, 1);
    assert_eq!(target.actions, vec![String::from("first"), String::from("second")]);
    assert!(manager.has_plugin_ty::<CountPlugin>());
    manager.apply::<CountPlugin>(&mut target).unwrap();
    assert_eq!(target.applied, 1);
    manager.with_plugin("count", &mut target, Record("now")).unwrap();
    assert_eq!(target.actions.len(), 3);
}
