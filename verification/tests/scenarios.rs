use orredis::errors::{Error, TypeTag};
use orredis::requests::{
    SELECT_ALL_FIELDS_FOR_ALL_IDS_SCRIPT, SELECT_ALL_FIELDS_FOR_SOME_IDS_SCRIPT,
    SELECT_SOME_FIELDS_FOR_ALL_IDS_SCRIPT, SELECT_SOME_FIELDS_FOR_SOME_IDS_SCRIPT,
};
use orredis::schema::{Property, SchemaDescriptor};
use orredis::store::{Collection, Store};
use orredis::store_values::StoreValue;
use orredis::values::{Record, Value};

/// A store in memory that applies the commands of a pipeline and answers the
/// four scripts as the real store does.
struct FakeStore {
    hashes: Vec<(String, Vec<(String, String)>)>,
    sets: Vec<(String, Vec<String>)>,
    expiries: Vec<(String, String)>,
}

fn data(s: &str) -> StoreValue {
    StoreValue::Data(s.as_bytes().to_vec())
}

impl FakeStore {
    fn new() -> FakeStore {
        FakeStore { hashes: vec![], sets: vec![], expiries: vec![] }
    }

    fn hash(&self, key: &str) -> Option<&Vec<(String, String)>> {
        self.hashes.iter().find(|(k, _)| k == key).map(|(_, fields)| fields)
    }

    fn members(&self, key: &str) -> Vec<String> {
        self.sets.iter().find(|(k, _)| k == key).map(|(_, m)| m.clone()).unwrap_or_default()
    }

    fn hgetall(&self, key: &str) -> StoreValue {
        let mut items = vec![];
        if let Some(fields) = self.hash(key) {
            for (name, value) in fields {
                items.push(data(name));
                items.push(data(value));
            }
        }
        StoreValue::Bulk(items)
    }

    fn hget(&self, key: &str, field: &str) -> Option<String> {
        self.hash(key)?.iter().find(|(name, _)| name == field).map(|(_, v)| v.clone())
    }

    fn expand(&self, parent: StoreValue, nested: &[String]) -> StoreValue {
        let mut items = match parent {
            StoreValue::Bulk(items) => items,
            other => return other,
        };
        let mut i = 0;
        while i + 1 < items.len() {
            let name = items[i].to_text();
            if name.map_or(false, |name| nested.contains(&name)) {
                let key = items[i + 1].to_text().unwrap();
                items[i + 1] = self.hgetall(&key);
            }
            i += 1;
        }
        StoreValue::Bulk(items)
    }

    fn project(&self, key: &str, args: &[String], keep_missing: bool) -> StoreValue {
        let mut columns: Vec<String> = vec![];
        let mut nested: Vec<String> = vec![];
        for arg in args {
            if columns.contains(arg) {
                nested.push(arg.clone());
            } else {
                columns.push(arg.clone());
            }
        }
        let mut items = vec![];
        for column in &columns {
            match self.hget(key, column) {
                Some(value) => {
                    items.push(data(column));
                    if nested.contains(column) {
                        items.push(self.hgetall(&value));
                    } else {
                        items.push(data(&value));
                    }
                }
                None => {
                    if keep_missing {
                        items.push(data(column));
                        items.push(StoreValue::Nil);
                    }
                }
            }
        }
        StoreValue::Bulk(items)
    }

    fn matching(&self, pattern: &str) -> Vec<String> {
        let prefix = pattern.strip_suffix('*').unwrap();
        self.hashes.iter().map(|(k, _)| k.clone()).filter(|k| k.starts_with(prefix)).collect()
    }

    fn eval(&self, args: &[String]) -> StoreValue {
        let script = args[1].as_str();
        let count: usize = args[2].parse().unwrap();
        let keys = &args[3..3 + count];
        let argv = &args[3 + count..];
        let mut found = vec![];
        if script == SELECT_ALL_FIELDS_FOR_SOME_IDS_SCRIPT {
            for key in keys {
                found.push(self.expand(self.hgetall(key), argv));
            }
        } else if script == SELECT_SOME_FIELDS_FOR_SOME_IDS_SCRIPT {
            for key in keys {
                found.push(self.project(key, argv, false));
            }
        } else if script == SELECT_ALL_FIELDS_FOR_ALL_IDS_SCRIPT {
            for key in self.matching(&argv[0]) {
                found.push(self.expand(self.hgetall(&key), &argv[1..]));
            }
        } else if script == SELECT_SOME_FIELDS_FOR_ALL_IDS_SCRIPT {
            for key in self.matching(&argv[0]) {
                found.push(self.project(&key, &argv[1..], true));
            }
        } else {
            panic!("unknown script");
        }
        StoreValue::Bulk(found)
    }

    fn run(&mut self, pipe: &redis::Pipeline) -> StoreValue {
        let mut replies = vec![];
        for cmd in pipe.cmd_iter() {
            let args: Vec<String> = cmd
                .args_iter()
                .map(|arg| match arg {
                    redis::Arg::Simple(bytes) => String::from_utf8(bytes.to_vec()).unwrap(),
                    redis::Arg::Cursor => panic!("no cursor is expected"),
                })
                .collect();
            match args[0].as_str() {
                "MULTI" | "EXEC" => {}
                "HSET" => {
                    assert!(args.len() >= 4 && args.len() % 2 == 0, "HSET takes pairs");
                    if self.hash(&args[1]).is_none() {
                        self.hashes.push((args[1].clone(), vec![]));
                    }
                    let fields =
                        &mut self.hashes.iter_mut().find(|(k, _)| k == &args[1]).unwrap().1;
                    for pair in args[2..].chunks(2) {
                        match fields.iter_mut().find(|(name, _)| name == &pair[0]) {
                            Some(entry) => entry.1 = pair[1].clone(),
                            None => fields.push((pair[0].clone(), pair[1].clone())),
                        }
                    }
                }
                "SADD" => {
                    if !self.sets.iter().any(|(k, _)| k == &args[1]) {
                        self.sets.push((args[1].clone(), vec![]));
                    }
                    let members = &mut self.sets.iter_mut().find(|(k, _)| k == &args[1]).unwrap().1;
                    for member in &args[2..] {
                        if !members.contains(member) {
                            members.push(member.clone());
                        }
                    }
                }
                "SREM" => {
                    for (key, members) in self.sets.iter_mut() {
                        if key == &args[1] {
                            members.retain(|m| !args[2..].contains(m));
                        }
                    }
                }
                "DEL" => {
                    self.hashes.retain(|(k, _)| !args[1..].contains(k));
                }
                "EXPIRE" => {
                    self.expiries.push((args[1].clone(), args[2].clone()));
                }
                "EVAL" => replies.push(self.eval(&args)),
                other => panic!("unexpected command {}", other),
            }
        }
        StoreValue::Bulk(replies)
    }
}

fn text(s: &str) -> Value {
    Value::Str(s.to_string())
}

fn typed(name: &str) -> Property {
    Property { declared_type: Some(name.to_string()), format: None, items: None, reference: None }
}

fn words(items: &[&str]) -> Vec<String> {
    items.iter().map(|s| s.to_string()).collect()
}

fn collections(default_ttl: Option<u64>) -> (Collection, Collection) {
    let mut store = Store::new(default_ttl);
    let pet = SchemaDescriptor { properties: Some(vec![("name".to_string(), typed("string"))]) };
    let person = SchemaDescriptor {
        properties: Some(vec![
            ("name".to_string(), typed("string")),
            ("age".to_string(), typed("integer")),
            (
                "pet".to_string(),
                Property {
                    declared_type: None,
                    format: None,
                    items: None,
                    reference: Some("#/definitions/pet".to_string()),
                },
            ),
        ]),
    };
    store.create_collection("pet", &pet, "name".to_string()).unwrap();
    store.create_collection("person", &person, "name".to_string()).unwrap();
    (store.get_collection("person").unwrap(), store.get_collection("pet").unwrap())
}

fn person(name: &str, age: i64, pet: Option<&str>) -> Record {
    let mut data = vec![("name".to_string(), text(name)), ("age".to_string(), Value::Int(age))];
    if let Some(pet) = pet {
        data.push(("pet".to_string(), Value::Nested(vec![("name".to_string(), text(pet))])));
    }
    Record::Full { data }
}

fn names(records: &[Record]) -> Vec<String> {
    let mut names: Vec<String> = records
        .iter()
        .map(|r| match &r.extract_data()[0].1 {
            Value::Str(name) => name.clone(),
            other => panic!("unexpected value {:?}", other),
        })
        .collect();
    names.sort();
    names
}

#[test]
fn a_person_with_a_pet_is_stored_as_two_hashes_and_read_back() {
    let (people, _) = collections(None);
    let mut store = FakeStore::new();
    let ada = person("Ada", 30, Some("Rex"));
    store.run(&people.add_one(&ada, None).unwrap());
    assert_eq!(store.hashes.len(), 2);
    assert_eq!(
        store.hash("person_%&_Ada"),
        Some(&vec![
            ("name".to_string(), "Ada".to_string()),
            ("age".to_string(), "30".to_string()),
            ("pet".to_string(), "pet_%&_Rex".to_string()),
        ])
    );
    assert_eq!(store.hash("pet_%&_Rex"), Some(&vec![("name".to_string(), "Rex".to_string())]));
    assert_eq!(store.members("person__index"), words(&["person_%&_Ada"]));
    assert_eq!(store.members("pet__index"), words(&["pet_%&_Rex"]));
    let response = store.run(&people.get_one("Ada"));
    assert_eq!(people.record_from(true, &response), Ok(Some(person("Ada", 30, Some("Rex")))));
}

#[test]
fn a_projection_on_age_gives_only_the_age_of_every_member() {
    let (people, _) = collections(None);
    let mut store = FakeStore::new();
    let members =
        vec![person("Ada", 30, Some("Rex")), person("Bo", 4, None), person("Cy", 61, Some("Max"))];
    store.run(&people.add_many(&members, None).unwrap());
    let response = store.run(&people.get_all_partially(&words(&["age"])).unwrap());
    let mut found = people.records_from(false, &response).unwrap();
    assert_eq!(found.len(), 3);
    found.sort_by_key(|r| match r.extract_data()[0].1 {
        Value::Int(age) => age,
        _ => panic!("an age is an integer"),
    });
    assert_eq!(
        found,
        vec![
            Record::Partial { data: vec![("age".to_string(), Value::Int(4))] },
            Record::Partial { data: vec![("age".to_string(), Value::Int(30))] },
            Record::Partial { data: vec![("age".to_string(), Value::Int(61))] },
        ]
    );
}

#[test]
fn a_deleted_record_is_absent_and_no_longer_listed() {
    let (people, _) = collections(None);
    let mut store = FakeStore::new();
    store.run(&people.add_many(&vec![person("Ada", 30, None), person("Bo", 4, None)], None).unwrap());
    store.run(&people.delete_many(&words(&["Ada"])));
    let response = store.run(&people.get_one("Ada"));
    assert_eq!(people.record_from(true, &response), Ok(None));
    let response = store.run(&people.get_all());
    assert_eq!(people.records_from(true, &response), Ok(vec![person("Bo", 4, None)]));
    assert_eq!(store.members("person__index"), words(&["person_%&_Bo"]));
}

#[test]
fn an_id_that_was_never_inserted_gives_no_record() {
    let (people, _) = collections(None);
    let mut store = FakeStore::new();
    store.run(&people.add_one(&person("Ada", 30, None), None).unwrap());
    let response = store.run(&people.get_many(&words(&["Ada", "Bo"])));
    assert_eq!(people.records_from(true, &response), Ok(vec![person("Ada", 30, None)]));
    let response = store.run(&people.get_many_partially(&words(&["Bo", "Ada"]), &words(&["name"])).unwrap());
    assert_eq!(
        people.records_from(false, &response),
        Ok(vec![Record::Partial { data: vec![("name".to_string(), text("Ada"))] }])
    );
    let response = store.run(&people.get_one_partially("Bo", &words(&["name"])).unwrap());
    assert_eq!(people.record_from(false, &response), Ok(None));
}

#[test]
fn a_batch_with_a_record_that_cannot_be_written_writes_nothing() {
    let (people, _) = collections(None);
    let store = FakeStore::new();
    let bad = Record::Full {
        data: vec![("name".to_string(), text("Bo")), ("age".to_string(), text("four"))],
    };
    let batch = vec![person("Ada", 30, Some("Rex")), bad, person("Cy", 61, None)];
    assert_eq!(
        people.add_many(&batch, None).err(),
        Some(Error::TypeMismatch { field: "age".to_string(), value: None, expected: TypeTag::Int })
    );
    assert!(store.hashes.is_empty());
    let nameless = Record::Full { data: vec![("age".to_string(), Value::Int(1))] };
    assert_eq!(
        people.add_many(&vec![person("Ada", 30, None), nameless], None).err(),
        Some(Error::MissingKey { field: "name".to_string() })
    );
}

#[test]
fn an_update_touches_only_the_fields_it_holds() {
    let (people, _) = collections(None);
    let mut store = FakeStore::new();
    store.run(&people.add_one(&person("Ada", 30, Some("Rex")), None).unwrap());
    let change = Record::Partial { data: vec![("age".to_string(), Value::Int(31))] };
    store.run(&people.update_one("Ada", &change, None).unwrap());
    let response = store.run(&people.get_one("Ada"));
    assert_eq!(people.record_from(true, &response), Ok(Some(person("Ada", 31, Some("Rex")))));
}

#[test]
fn a_nested_field_that_is_asked_for_is_expanded() {
    let (people, _) = collections(None);
    let mut store = FakeStore::new();
    store.run(&people.add_one(&person("Ada", 30, Some("Rex")), None).unwrap());
    let response = store.run(&people.get_one_partially("Ada", &words(&["pet"])).unwrap());
    assert_eq!(
        people.record_from(false, &response),
        Ok(Some(Record::Partial {
            data: vec![("pet".to_string(), Value::Nested(vec![("name".to_string(), text("Rex"))]))],
        }))
    );
}

#[test]
fn all_records_of_one_collection_only() {
    let (people, pets) = collections(None);
    let mut store = FakeStore::new();
    store.run(
        &people
            .add_many(&vec![person("Ada", 30, Some("Rex")), person("Bo", 4, Some("Max"))], None)
            .unwrap(),
    );
    let response = store.run(&people.get_all());
    assert_eq!(names(&people.records_from(true, &response).unwrap()), words(&["Ada", "Bo"]));
    let response = store.run(&pets.get_all());
    assert_eq!(names(&pets.records_from(true, &response).unwrap()), words(&["Max", "Rex"]));
}

#[test]
fn the_time_to_live_of_the_call_comes_before_the_default() {
    let (people, _) = collections(Some(60));
    let mut store = FakeStore::new();
    store.run(&people.add_one(&person("Ada", 30, None), None).unwrap());
    assert_eq!(
        store.expiries,
        vec![
            ("person_%&_Ada".to_string(), "60".to_string()),
            ("person__index".to_string(), "60".to_string()),
        ]
    );
    store.expiries.clear();
    store.run(&people.add_one(&person("Bo", 4, None), Some(5)).unwrap());
    assert_eq!(
        store.expiries,
        vec![
            ("person_%&_Bo".to_string(), "5".to_string()),
            ("person__index".to_string(), "5".to_string()),
        ]
    );
    let (people, _) = collections(None);
    store.expiries.clear();
    store.run(&people.update_one("Bo", &person("Bo", 5, None), None).unwrap());
    assert!(store.expiries.is_empty());
}

#[test]
fn a_projection_on_an_unknown_field_is_refused() {
    let (people, _) = collections(None);
    assert_eq!(
        people.get_all_partially(&words(&["age", "colour"])).err(),
        Some(Error::UnknownField { field: "colour".to_string() })
    );
    assert_eq!(
        people.get_one_partially("Ada", &words(&["colour"])).err(),
        Some(Error::UnknownField { field: "colour".to_string() })
    );
}
