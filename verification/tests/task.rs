use conductor::{decode_task_def, encode_task_def, TaskDef};

#[test]
fn get_name_returns_the_name() {
    let task_def = TaskDef::new("get_spam".to_string());
    assert_eq!(task_def.name(), "get_spam");
}

#[test]
fn set_name_sets_the_name() {
    let mut task_def = TaskDef::new("get_spam".to_string());
    task_def.set_name("eat_spam".to_string());
    assert_eq!(task_def.name(), "eat_spam");
}

#[test]
fn task_def_name_gets_serialized() {
    let task_def = TaskDef::new("eat_spam".to_string());
    let json = encode_task_def(&task_def);
    assert_eq!(json, "{\"name\":\"eat_spam\"}");
}

#[test]
fn task_def_name_gets_deserialized() {
    let json = "{ \"name\": \"eat_spam\" }";
    let task_def = decode_task_def(json).expect("deserialized");
    assert_eq!(task_def.name(), "eat_spam");
}

#[test]
fn clone_keeps_the_name() {
    let task_def = TaskDef::new("get_spam".to_string());
    let copy = task_def.clone();
    assert_eq!(copy.name(), "get_spam");
}
