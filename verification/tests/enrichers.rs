//! Enrichers in a database, and the files that they are imported from.
use bastion_infrastructure::domain::DomainError;
use bastion_infrastructure::enrichment::models::{
    EnricherDescriptor, ExtractorConfig, RuleAction, RuleConfig,
};
use bastion_infrastructure::enrichment::sqlite_repo::{
    default_enabled, default_merge_mode, enricher_row, file_format, find_enrichers, from_file,
    import_file, list_all, matches_command, rule_of_row, validate, EnricherFile, FileFormat,
    FileRule, JoinedRow, RuleRow,
};
use rusqlite::{Connection, ToSql};
use serde_yaml::Value;

fn s(text: &str) -> String {
    text.to_string()
}

const ENRICHER_TABLES: &str = "CREATE TABLE IF NOT EXISTS enrichers (
    id TEXT PRIMARY KEY,
    name TEXT NOT NULL,
    version TEXT NOT NULL,
    match_patterns_json TEXT NOT NULL,
    template TEXT NOT NULL,
    enabled INTEGER NOT NULL DEFAULT 1
);
CREATE TABLE IF NOT EXISTS extractors (
    id TEXT NOT NULL,
    enricher_id TEXT NOT NULL,
    type TEXT NOT NULL,
    pattern TEXT NOT NULL,
    fact_key TEXT NOT NULL,
    priority INTEGER NOT NULL DEFAULT 0,
    merge_mode TEXT NOT NULL DEFAULT 'single',
    PRIMARY KEY (enricher_id, id),
    FOREIGN KEY (enricher_id) REFERENCES enrichers(id) ON DELETE CASCADE
);";

const RULES_TABLE: &str = "CREATE TABLE IF NOT EXISTS rules (
    id TEXT NOT NULL,
    enricher_id TEXT NOT NULL,
    condition TEXT NOT NULL,
    priority INTEGER NOT NULL DEFAULT 0,
    enabled INTEGER NOT NULL DEFAULT 1,
    actions_json TEXT NOT NULL DEFAULT '[]',
    PRIMARY KEY (enricher_id, id),
    FOREIGN KEY (enricher_id) REFERENCES enrichers(id) ON DELETE CASCADE
);";

const JOINED: &str = "SELECT e.id, e.name, e.version, e.match_patterns_json, e.template, \
     e.enabled, ext.id, ext.type, ext.pattern, ext.fact_key, ext.priority, ext.merge_mode \
     FROM enrichers e LEFT JOIN extractors ext ON ext.enricher_id = e.id";

/// Enrichers and their rules in a database in memory.
struct Catalog {
    conn: Connection,
}

impl Catalog {
    fn new() -> Self {
        Catalog::over(Connection::open_in_memory().unwrap())
    }

    fn over(conn: Connection) -> Self {
        conn.execute_batch(ENRICHER_TABLES).unwrap();
        conn.execute_batch(RULES_TABLE).unwrap();
        Catalog { conn }
    }

    fn execute(&self, sql: &str, values: &[&dyn ToSql]) {
        self.conn.execute(sql, values).unwrap();
    }

    fn upsert_enricher(&self, e: &EnricherDescriptor) {
        let row = enricher_row(e);
        self.execute(
            "INSERT OR REPLACE INTO enrichers \
             (id, name, version, match_patterns_json, template, enabled) \
             VALUES (?1, ?2, ?3, ?4, ?5, ?6)",
            &[
                &row.id,
                &row.name,
                &row.version,
                &row.match_patterns_json,
                &row.template,
                &row.enabled,
            ],
        );
        self.execute("DELETE FROM extractors WHERE enricher_id = ?1", &[&e.id]);
        for x in &e.extractors {
            self.execute(
                "INSERT OR REPLACE INTO extractors \
                 (id, enricher_id, type, pattern, fact_key, priority, merge_mode) \
                 VALUES (?1, ?2, ?3, ?4, ?5, ?6, ?7)",
                &[
                    &x.id,
                    &e.id,
                    &x.extractor_type,
                    &x.pattern,
                    &x.fact_key,
                    &x.priority,
                    &x.merge_mode,
                ],
            );
        }
    }

    fn upsert_rules(&self, enricher_id: &str, rules: &[RuleConfig]) {
        self.execute("DELETE FROM rules WHERE enricher_id = ?1", &[&enricher_id]);
        for rule in rules {
            self.execute(
                "INSERT INTO rules (id, enricher_id, condition, priority, enabled) \
                 VALUES (?1, ?2, ?3, ?4, ?5)",
                &[
                    &rule.id,
                    &enricher_id,
                    &rule.condition,
                    &rule.priority,
                    &(rule.enabled as i32),
                ],
            );
        }
    }

    fn joined(&self, sql: &str) -> Vec<JoinedRow> {
        let mut statement = self.conn.prepare(sql).unwrap();
        let rows = statement
            .query_map([], |row| {
                Ok(JoinedRow {
                    id: row.get(0)?,
                    name: row.get(1)?,
                    version: row.get(2)?,
                    match_patterns_json: row.get(3)?,
                    template: row.get(4)?,
                    enabled: row.get(5)?,
                    extractor_id: row.get(6)?,
                    extractor_type: row.get(7)?,
                    pattern: row.get(8)?,
                    fact_key: row.get(9)?,
                    priority: row.get(10)?,
                    merge_mode: row.get(11)?,
                })
            })
            .unwrap();
        rows.map(|row| row.unwrap()).collect()
    }

    fn find_enrichers(&self, command: &str) -> Vec<EnricherDescriptor> {
        find_enrichers(&self.joined(&format!("{} WHERE e.enabled = 1", JOINED)), command)
    }

    fn list_all(&self) -> Vec<EnricherDescriptor> {
        list_all(&self.joined(JOINED))
    }

    fn find_rules(&self, enricher_id: &str) -> Vec<RuleConfig> {
        let mut statement = self
            .conn
            .prepare(
                "SELECT id, enricher_id, condition, priority, enabled FROM rules \
                 WHERE enricher_id = ?1 AND enabled = 1 ORDER BY priority ASC",
            )
            .unwrap();
        let rows = statement
            .query_map([enricher_id], |row| {
                Ok(RuleRow {
                    id: row.get(0)?,
                    enricher_id: row.get(1)?,
                    condition: row.get(2)?,
                    priority: row.get(3)?,
                    enabled: row.get(4)?,
                })
            })
            .unwrap();
        rows.map(|row| rule_of_row(row.unwrap(), None)).collect()
    }

    /// Imports a file. One that is refused leaves the catalog as it was.
    fn import(&self, name: &str, content: &str) -> Result<(), DomainError> {
        let format = file_format(name).expect("a file of an enricher");
        let import = import_file(format, parse(format, content))?;
        let parsed: Vec<Result<(), String>> =
            import.rules.iter().map(|r| parse_condition(&r.condition)).collect();
        validate(&import, &parsed)?;
        self.upsert_enricher(&import.enricher);
        if !import.rules.is_empty() {
            self.upsert_rules(&import.enricher.id, &import.rules);
        }
        Ok(())
    }

    /// Imports files, and tells how many were taken. One that is refused does not stop
    /// the others.
    fn import_all(&self, files: &[(&str, &str)]) -> usize {
        files.iter().filter(|(name, content)| self.import(name, content).is_ok()).count()
    }
}

/// Stands for the parser of conditions: a comparison needs a right side.
fn parse_condition(condition: &str) -> Result<(), String> {
    if condition.ends_with("==") {
        Err(s("unexpected end"))
    } else {
        Ok(())
    }
}

// The documents of enrichers.

fn text(value: &Value, key: &str) -> Result<String, String> {
    match value.get(key).and_then(|v| v.as_str()) {
        Some(text) => Ok(s(text)),
        None => Err(format!("missing field `{}`", key)),
    }
}

fn items<'a>(value: &'a Value, key: &str) -> Option<&'a Vec<Value>> {
    value.get(key).and_then(|v| v.as_sequence())
}

fn number(value: &Value, key: &str) -> i32 {
    value.get(key).and_then(|v| v.as_i64()).unwrap_or(0) as i32
}

fn enabled(value: &Value) -> bool {
    value.get("enabled").and_then(|v| v.as_bool()).unwrap_or(default_enabled())
}

fn read_extractor(value: &Value) -> Result<ExtractorConfig, String> {
    Ok(ExtractorConfig {
        id: text(value, "id")?,
        extractor_type: text(value, "type")?,
        pattern: text(value, "pattern")?,
        fact_key: text(value, "fact_key")?,
        priority: number(value, "priority"),
        merge_mode: text(value, "merge_mode").unwrap_or(default_merge_mode()),
    })
}

fn read_action(value: &Value) -> Result<RuleAction, String> {
    match text(value, "type")?.as_str() {
        "SetVerdict" => Ok(RuleAction::SetVerdict(text(value, "params")?)),
        "Recommend" => Ok(RuleAction::Recommend(text(value, "params")?)),
        other => Err(format!("unknown variant `{}`", other)),
    }
}

fn read_rule(value: &Value) -> Result<FileRule, String> {
    let actions = items(value, "actions").map(|v| v.as_slice()).unwrap_or(&[]);
    Ok(FileRule {
        id: text(value, "id")?,
        condition: text(value, "condition")?,
        priority: number(value, "priority"),
        enabled: enabled(value),
        actions: actions.iter().map(read_action).collect::<Result<Vec<RuleAction>, String>>()?,
    })
}

fn read_file(document: &Value) -> Result<EnricherFile, String> {
    let e = document.get("enricher").ok_or_else(|| s("missing field `enricher`"))?;
    let patterns = items(e, "match_patterns").ok_or_else(|| s("missing field `match_patterns`"))?;
    let extractors = items(e, "extractors").ok_or_else(|| s("missing field `extractors`"))?;
    let rules = items(e, "rules").map(|v| v.as_slice()).unwrap_or(&[]);
    Ok(EnricherFile {
        id: text(e, "id")?,
        name: text(e, "name")?,
        version: text(e, "version")?,
        match_patterns: patterns.iter().filter_map(|p| p.as_str()).map(s).collect(),
        template: text(e, "template")?,
        enabled: enabled(e),
        extractors: extractors
            .iter()
            .map(read_extractor)
            .collect::<Result<Vec<ExtractorConfig>, String>>()?,
        rules: rules.iter().map(read_rule).collect::<Result<Vec<FileRule>, String>>()?,
    })
}

fn parse(format: FileFormat, content: &str) -> Result<EnricherFile, String> {
    let document: Value = match format {
        FileFormat::Yaml => serde_yaml::from_str(content).map_err(|e| e.to_string())?,
        FileFormat::Toml => {
            let table: toml::Value = toml::from_str(content).map_err(|e| e.to_string())?;
            serde_yaml::to_value(&table).map_err(|e| e.to_string())?
        }
    };
    read_file(&document)
}

// Enrichers that are kept.

fn build_status(pattern: &str) -> ExtractorConfig {
    ExtractorConfig {
        id: s("build_status"),
        extractor_type: s("regex"),
        pattern: s(pattern),
        fact_key: s("build_status"),
        priority: 1,
        merge_mode: s("single"),
    }
}

fn enricher(id: &str, name: &str, pattern: &str, template: &str) -> EnricherDescriptor {
    EnricherDescriptor {
        id: s(id),
        name: s(name),
        version: s("1.0"),
        match_patterns: vec![s(pattern)],
        template: s(template),
        enabled: true,
        extractors: vec![build_status(r"BUILD\s+(SUCCESS|FAILURE)")],
    }
}

fn rule_config(id: &str, condition: &str, priority: i32) -> RuleConfig {
    RuleConfig {
        id: s(id),
        enricher_id: s("maven"),
        condition: s(condition),
        priority,
        enabled: true,
        actions: vec![],
    }
}

#[test]
fn test_find_enrichers_match() {
    let repo = Catalog::new();
    let mut maven =
        enricher("maven", "Maven", r"^mvn\s+(package|install|verify)", "Build {{status}}");
    maven.extractors = vec![build_status(r"(?P<status>BUILD\s+(SUCCESS|FAILURE))")];
    repo.upsert_enricher(&maven);

    let found = repo.find_enrichers("mvn package");
    assert_eq!(found.len(), 1);
    assert_eq!(found[0].id, "maven");

    let not_found = repo.find_enrichers("cargo build");
    assert!(not_found.is_empty());
}

#[test]
fn test_same_extractor_id_different_enrichers() {
    let repo = Catalog::new();
    repo.upsert_enricher(&enricher("maven", "Maven", r"^mvn\s+", "Build"));
    repo.upsert_enricher(&enricher("gradle", "Gradle", r"^gradle\s+", "Build"));

    let all_enrichers = repo.list_all();
    assert_eq!(all_enrichers.len(), 2);

    let maven = all_enrichers.iter().find(|e| e.id == "maven").unwrap();
    let gradle = all_enrichers.iter().find(|e| e.id == "gradle").unwrap();

    assert_eq!(maven.extractors.len(), 1);
    assert_eq!(gradle.extractors.len(), 1);
    assert_eq!(maven.extractors[0].id, "build_status");
    assert_eq!(gradle.extractors[0].id, "build_status");
}

#[test]
fn test_import_skips_only_invalid_extractors_not_whole_enricher_when_upsert_directly() {
    let repo = Catalog::new();
    repo.upsert_enricher(&enricher("maven", "Maven", r"^mvn\s+", "Build"));

    let all_enrichers = repo.list_all();
    assert_eq!(all_enrichers.len(), 1);
    assert_eq!(all_enrichers[0].id, "maven");
}

#[test]
fn test_rules_table_migration() {
    // A database without the table of rules gets it.
    let conn = Connection::open_in_memory().unwrap();
    conn.execute_batch(ENRICHER_TABLES).unwrap();
    let repo = Catalog::over(conn);

    let mut maven = enricher("maven", "Maven", r"^mvn\s+package", "Build");
    maven.extractors = vec![];
    repo.upsert_enricher(&maven);
    repo.upsert_rules("maven", &[rule_config("test_rule", "exit_code == 0", 0)]);

    let rules = repo.find_rules("maven");
    assert_eq!(rules.len(), 1);
    assert_eq!(rules[0].id, "test_rule");
}

#[test]
fn test_cascade_delete_on_enricher_removal() {
    let repo = Catalog::new();
    let mut maven = enricher("maven", "Maven", r"^mvn\s+", "Build");
    maven.extractors = vec![];
    repo.upsert_enricher(&maven);

    let rules =
        vec![rule_config("rule1", "exit_code == 0", 0), rule_config("rule2", "exit_code != 0", 1)];
    repo.upsert_rules("maven", &rules);
    assert_eq!(repo.find_rules("maven").len(), 2);

    repo.upsert_rules("maven", &[]);
    assert!(repo.find_rules("maven").is_empty());
}

#[test]
fn an_enricher_that_is_kept_reads_back() {
    let repo = Catalog::new();
    let mut kept = enricher("maven", "Maven", "^mvn \"quoted\"", "Build {{status}}");
    kept.match_patterns.push(s("second\n"));
    let mut tests = build_status("Tests run");
    tests.id = s("tests");
    kept.extractors.push(tests);
    let row = enricher_row(&kept);
    assert_eq!(row.match_patterns_json, "[\"^mvn \\\"quoted\\\"\",\"second\\n\"]");
    assert_eq!(row.enabled, 1);
    repo.upsert_enricher(&kept);
    let all = repo.list_all();
    assert_eq!(all.len(), 1);
    assert_eq!(all[0].match_patterns, kept.match_patterns);
    assert_eq!(all[0].template, kept.template);
    assert_eq!(all[0].extractors.len(), 2);
    assert!(all[0].extractors.iter().any(|x| x.id == "tests"));
}

#[test]
fn patterns_that_do_not_compile_match_nothing() {
    let mut e = enricher("odd", "Odd", "[", "Build");
    assert!(!matches_command(&e, "["));
    e.match_patterns.push(s("^go "));
    assert!(matches_command(&e, "go build"));
    assert!(!matches_command(&e, "cargo build"));
}

// Files that are imported.

#[test]
fn test_import_yaml_valid() {
    let repo = Catalog::new();
    let yaml_content = "enricher:\n  id: maven\n  name: Maven\n  version: \"1.0\"\n  match_patterns:\n    - \"^mvn\\\\s+package\"\n  template: build-template\n  enabled: true\n  extractors:\n    - id: bs\n      type: regex\n      pattern: SUCCESS\n      fact_key: status\n      priority: 1\n";
    let count = repo.import_all(&[("maven.yaml", yaml_content)]);
    assert_eq!(count, 1);

    let enrichers = repo.find_enrichers("mvn package");
    assert_eq!(enrichers.len(), 1);
    assert_eq!(enrichers[0].id, "maven");
    assert_eq!(enrichers[0].extractors.len(), 1);
}

#[test]
fn test_invalid_file_resilience() {
    let repo = Catalog::new();
    let yaml_content = r#"
enricher:
  id: "maven"
  name: "Maven"
  version: "1.0"
  match_patterns:
    - "^mvn\\s+package"
  template: "Build"
  enabled: true
  extractors: []
"#;
    let count = repo.import_all(&[
        ("maven.yaml", yaml_content),
        ("invalid.yaml", "not: valid: yaml: content: !!!"),
    ]);
    assert_eq!(count, 1);
}

#[test]
fn test_yaml_parse_error_does_not_fallback_to_toml() {
    let repo = Catalog::new();
    let ambiguous_content = "key = \"value\"\n";
    let count = repo
        .import_all(&[("ambiguous.toml", ambiguous_content), ("ambiguous.yaml", ambiguous_content)]);
    assert_eq!(count, 0);
    assert_eq!(
        repo.import("ambiguous.yaml", ambiguous_content),
        Err(DomainError::Internal(s(
            "YAML parse error: YAML parse error: missing field `enricher`"
        )))
    );
    assert_eq!(
        repo.import("ambiguous.toml", ambiguous_content),
        Err(DomainError::Internal(s(
            "TOML parse error: TOML parse error: missing field `enricher`"
        )))
    );
}

#[test]
fn test_invalid_regex_rejected_during_import() {
    let repo = Catalog::new();
    let yaml_content = r#"
enricher:
  id: "bad_maven"
  name: "Bad Maven"
  version: "1.0"
  match_patterns:
    - "^mvn\\s+test"
  template: "Test"
  enabled: true
  extractors:
    - id: bad_regex
      type: regex
      pattern: "[invalid"  # Invalid regex - missing closing bracket
      fact_key: status
      priority: 1
"#;
    let result = repo.import_all(&[("bad_maven.yaml", yaml_content)]);
    assert_eq!(result, 0, "No files should be imported successfully");
    match repo.import("bad_maven.yaml", yaml_content) {
        Err(DomainError::Validation(m)) => assert!(
            m.starts_with("Enricher 'bad_maven' has invalid regex in extractor 'bad_regex': regex"),
            "{}",
            m
        ),
        other => panic!("{:?}", other),
    }

    let all_enrichers = repo.list_all();
    assert!(
        all_enrichers.iter().find(|e| e.id == "bad_maven").is_none(),
        "Enricher with invalid regex should not be persisted"
    );
    let found = repo.find_enrichers("mvn test");
    assert!(
        found.iter().find(|e| e.id == "bad_maven").is_none(),
        "Enricher with invalid regex should not appear in find_enrichers"
    );
}

#[test]
fn test_import_yaml_with_rules() {
    let repo = Catalog::new();
    let yaml_content = "enricher:
  id: maven
  name: Maven
  version: '1.0'
  match_patterns:
    - ^mvn package
  template: build
  enabled: true
  extractors: []
  rules:
    - id: build_verdict
      condition: exit_code == 0
      priority: 0
      enabled: true
      actions:
        - type: SetVerdict
          params: PASSED
";
    let count = repo.import_all(&[("maven.yaml", yaml_content)]);
    assert_eq!(count, 1, "import_dir should return 1 for successful import");

    let enrichers = repo.find_enrichers("mvn package");
    assert_eq!(enrichers.len(), 1, "Enricher should be stored");

    let rules = repo.find_rules("maven");
    assert_eq!(rules.len(), 1);
    let build_rule = rules.iter().find(|r| r.id == "build_verdict").unwrap();
    assert_eq!(build_rule.condition, "exit_code == 0");
    assert_eq!(build_rule.priority, 0);
    assert!(build_rule.enabled);

    let import = from_file(parse(FileFormat::Yaml, yaml_content).unwrap());
    assert_eq!(import.rules[0].enricher_id, "maven");
    assert!(matches!(&import.rules[0].actions[0], RuleAction::SetVerdict(v) if v == "PASSED"));
}

#[test]
fn test_import_yaml_without_rules_backward_compatible() {
    let repo = Catalog::new();
    let yaml_content = "
enricher:
  id: maven
  name: Maven
  version: '1.0'
  match_patterns:
    - '^mvn\\s+package'
  template: Build
  enabled: true
  extractors:
    - id: build_status
      type: regex
      pattern: SUCCESS
      fact_key: status
      priority: 1
";
    let count = repo.import_all(&[("maven.yaml", yaml_content)]);
    assert_eq!(count, 1);

    let enrichers = repo.find_enrichers("mvn package");
    assert_eq!(enrichers.len(), 1);

    let rules = repo.find_rules("maven");
    assert!(rules.is_empty());
}

#[test]
fn test_import_yaml_with_invalid_rule_condition_rejected() {
    let repo = Catalog::new();
    let yaml_content = "enricher:
  id: maven
  name: Maven
  version: '1.0'
  match_patterns:
    - ^mvn package
  template: Build
  enabled: true
  extractors: []
  rules:
    - id: bad_rule
      condition: exit_code ==
      priority: 0
      enabled: true
      actions:
        - type: SetVerdict
          params: BAD
";
    let result = repo.import_all(&[("maven.yaml", yaml_content)]);
    assert_eq!(result, 0);
    assert_eq!(
        repo.import("maven.yaml", yaml_content),
        Err(DomainError::Validation(s(
            "Enricher 'maven' has invalid rule 'bad_rule' condition 'exit_code ==': unexpected end"
        )))
    );

    let rules = repo.find_rules("maven");
    assert!(rules.is_empty());
}

#[test]
fn extractors_of_other_types_need_no_pattern_that_compiles() {
    let yaml_content = "enricher:
  id: odd
  name: Odd
  version: '1.0'
  match_patterns: []
  template: build
  extractors:
    - id: x
      type: json
      pattern: '[invalid'
      fact_key: status
";
    let import = from_file(parse(FileFormat::Yaml, yaml_content).unwrap());
    assert!(validate(&import, &vec![]).is_ok());
    assert!(import.enricher.enabled);
    assert_eq!(import.enricher.extractors[0].merge_mode, "single");
}

#[test]
fn enricher_files_are_told_by_their_extension() {
    assert_eq!(file_format("maven.yaml"), Some(FileFormat::Yaml));
    assert_eq!(file_format("maven.yml"), Some(FileFormat::Yaml));
    assert_eq!(file_format("maven.toml"), Some(FileFormat::Toml));
    assert_eq!(file_format("maven.json"), None);
    assert_eq!(file_format("yaml"), None);
    assert_eq!(default_merge_mode(), "single");
}

#[test]
fn rules_without_readable_actions_have_none() {
    let row = || RuleRow {
        id: s("r"),
        enricher_id: s("maven"),
        condition: s("exit_code == 0"),
        priority: 3,
        enabled: 1,
    };
    assert!(rule_of_row(row(), None).actions.is_empty());
    let read = rule_of_row(row(), Some(vec![RuleAction::Recommend(s("retry"))]));
    assert_eq!(read.actions.len(), 1);
    assert!(read.enabled);
    assert_eq!(read.priority, 3);
}
