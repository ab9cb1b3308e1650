//! Reference documentation for the configuration: the documented fields and
//! their rendering as a markdown table.

use vstd::prelude::*;
use vstd::string::{StrSliceExecFns, StringExecFns};

verus! {

/// Documentation of one configuration field.
pub struct ConfigDoc {
    /// Field path, such as `general.verbose`.
    pub field: String,
    /// Human-readable description.
    pub description: String,
    /// Data type name.
    pub field_type: String,
    /// Default value, if the field has one.
    pub default: Option<String>,
    /// Whether the field is required.
    pub required: bool,
}

/// The mathematical value of one documented field.
pub struct DocModel {
    /// Field path.
    pub field: Seq<char>,
    /// Human-readable description.
    pub description: Seq<char>,
    /// Data type name.
    pub field_type: Seq<char>,
    /// Default value, if any.
    pub default: Option<Seq<char>>,
    /// Whether the field is required.
    pub required: bool,
}

impl ConfigDoc {
    /// The documented field as a mathematical value.
    pub open spec fn model(self) -> DocModel {
        DocModel {
            field: self.field@,
            description: self.description@,
            field_type: self.field_type@,
            default: match self.default {
                Some(s) => Some(s@),
                None => None,
            },
            required: self.required,
        }
    }
}

/// The ten documented configuration fields, in rendering order.
pub open spec fn config_docs_model() -> Seq<DocModel> {
    seq![
        DocModel { field: "general.verbose"@, description: "Enable verbose logging output"@, field_type: "boolean"@, default: Some("false"@), required: false },
        DocModel { field: "general.log_file"@, description: "Path to log file (optional)"@, field_type: "string"@, default: None, required: false },
        DocModel { field: "general.threads"@, description: "Number of worker threads (0 = auto-detect)"@, field_type: "integer"@, default: Some("0"@), required: false },
        DocModel { field: "source.path"@, description: "Source directory to sync"@, field_type: "string"@, default: None, required: true },
        DocModel { field: "source.exclude"@, description: "Patterns to exclude (gitignore syntax)"@, field_type: "array[string]"@, default: Some("[]"@), required: false },
        DocModel { field: "device[].id"@, description: "Unique device identifier"@, field_type: "string"@, default: None, required: true },
        DocModel { field: "device[].mount_point"@, description: "Device mount point path"@, field_type: "string"@, default: None, required: true },
        DocModel { field: "policy.retain_snapshots"@, description: "Number of snapshots to retain"@, field_type: "integer"@, default: Some("7"@), required: false },
        DocModel { field: "security.key_rotation_days"@, description: "Days between automatic key rotation"@, field_type: "integer"@, default: Some("90"@), required: false },
        DocModel { field: "security.audit_level"@, description: "Audit logging level (none, basic, full)"@, field_type: "string"@, default: Some("full"@), required: false },
    ]
}

/// One markdown table row for a documented field.
pub open spec fn row_of(d: DocModel) -> Seq<char> {
    "| `"@ + d.field + "` | "@ + d.field_type + " | "@ + (if d.required {
        "Yes"@
    } else {
        "No"@
    }) + " | "@ + (match d.default {
        Some(s) => s,
        None => "-"@,
    }) + " | "@ + d.description + " |\n"@
}

/// The rows for a sequence of documented fields, in order.
pub open spec fn rows_of(docs: Seq<DocModel>) -> Seq<char>
    decreases docs.len(),
{
    if docs.len() == 0 {
        Seq::empty()
    } else {
        rows_of(docs.drop_last()) + row_of(docs.last())
    }
}

/// The table header of the configuration reference.
pub open spec fn markdown_header() -> Seq<char> {
    "# Configuration Reference\n\n## Configuration Fields\n\n| Field | Type | Required | Default | Description |\n|-------|------|----------|---------|-------------|\n"@
}

/// The example section that closes the configuration reference.
pub open spec fn markdown_tail() -> Seq<char> {
    "\n## Example Configuration\n\n```toml\n"@ + example_config_toml_text() + "```\n"@
}

/// The example configuration shown in the reference.
pub open spec fn example_config_toml_text() -> Seq<char> {
    "[source]\npath = \"~/Documents\"\nexclude = [\"*.tmp\", \".DS_Store\"]\n\n[[device]]\nid = \"USB001\"\nname = \"Secure Backup USB\"\nmount_point = \"/Volumes/SecureUSB\"\n\n[policy]\nretain_snapshots = 7\nretain_days = 30\n\n[security]\nkey_rotation_days = 90\naudit_level = \"full\"\n"@
}

/// The whole configuration reference for these documented fields.
pub open spec fn markdown_of(docs: Seq<DocModel>) -> Seq<char> {
    markdown_header() + rows_of(docs) + markdown_tail()
}

/// Builds one documented field.
fn doc(
    field: &str,
    description: &str,
    field_type: &str,
    default: Option<&str>,
    required: bool,
) -> (r: ConfigDoc)
    ensures
        r.field@ == field@,
        r.description@ == description@,
        r.field_type@ == field_type@,
        match default {
            Some(s) => r.default matches Some(d) && d@ == s@,
            None => r.default is None,
        },
        r.required == required,
{
    ConfigDoc {
        field: field.to_owned(),
        description: description.to_owned(),
        field_type: field_type.to_owned(),
        default: match default {
            Some(s) => Some(s.to_owned()),
            None => None,
        },
        required,
    }
}

/// The documented configuration fields, in the order they are rendered.
pub fn generate_config_docs() -> (r: Vec<ConfigDoc>)
    ensures
        r@.map_values(|d: ConfigDoc| d.model()) == config_docs_model(),
        r@.len() == 10,
{
    let mut out: Vec<ConfigDoc> = Vec::new();
    out.push(
        doc(
            "general.verbose",
            "Enable verbose logging output",
            "boolean",
            Some("false"),
            false,
        ),
    );
    out.push(doc("general.log_file", "Path to log file (optional)", "string", None, false));
    out.push(
        doc(
            "general.threads",
            "Number of worker threads (0 = auto-detect)",
            "integer",
            Some("0"),
            false,
        ),
    );
    out.push(doc("source.path", "Source directory to sync", "string", None, true));
    out.push(
        doc(
            "source.exclude",
            "Patterns to exclude (gitignore syntax)",
            "array[string]",
            Some("[]"),
            false,
        ),
    );
    out.push(doc("device[].id", "Unique device identifier", "string", None, true));
    out.push(doc("device[].mount_point", "Device mount point path", "string", None, true));
    out.push(
        doc(
            "policy.retain_snapshots",
            "Number of snapshots to retain",
            "integer",
            Some("7"),
            false,
        ),
    );
    out.push(
        doc(
            "security.key_rotation_days",
            "Days between automatic key rotation",
            "integer",
            Some("90"),
            false,
        ),
    );
    out.push(
        doc(
            "security.audit_level",
            "Audit logging level (none, basic, full)",
            "string",
            Some("full"),
            false,
        ),
    );
    proof {
        assert(out@.map_values(|d: ConfigDoc| d.model()) =~= config_docs_model());
    }
    out
}

/// Renders one table row for a documented field.
fn build_row(d: &ConfigDoc) -> (r: String)
    ensures
        r@ == row_of(d.model()),
{
    let mut out = String::new();
    out.append("| `");
    out.append(d.field.as_str());
    out.append("` | ");
    out.append(d.field_type.as_str());
    out.append(" | ");
    if d.required {
        out.append("Yes");
    } else {
        out.append("No");
    }
    out.append(" | ");
    match &d.default {
        Some(s) => out.append(s.as_str()),
        None => out.append("-"),
    }
    out.append(" | ");
    out.append(d.description.as_str());
    out.append(" |\n");
    proof {
        assert(out@ =~= row_of(d.model()));
    }
    out
}

/// Renders the configuration reference: the header, one table row per
/// documented field, and the example section.
pub fn generate_markdown_docs() -> (r: String)
    ensures
        r@ == markdown_of(config_docs_model()),
{
    let docs = generate_config_docs();
    let ghost models = docs@.map_values(|d: ConfigDoc| d.model());
    let mut out = String::new();
    out.append(
        "# Configuration Reference\n\n## Configuration Fields\n\n| Field | Type | Required | Default | Description |\n|-------|------|----------|---------|-------------|\n",
    );
    let mut i: usize = 0;
    while i < docs.len()
        invariant
            i <= docs@.len(),
            docs@.map_values(|d: ConfigDoc| d.model()) == models,
            models == config_docs_model(),
            out@ == markdown_header() + rows_of(models.subrange(0, i as int)),
        decreases docs@.len() - i,
    {
        let row = build_row(&docs[i]);
        out.append(row.as_str());
        proof {
            let pre = models.subrange(0, i as int);
            let post = models.subrange(0, (i + 1) as int);
            assert(post.drop_last() =~= pre);
            assert(post.last() == models[i as int]);
            assert(models[i as int] == docs@[i as int].model());
            assert(out@ =~= markdown_header() + rows_of(post));
        }
        i += 1;
    }
    out.append("\n## Example Configuration\n\n```toml\n");
    out.append(
        "[source]\npath = \"~/Documents\"\nexclude = [\"*.tmp\", \".DS_Store\"]\n\n[[device]]\nid = \"USB001\"\nname = \"Secure Backup USB\"\nmount_point = \"/Volumes/SecureUSB\"\n\n[policy]\nretain_snapshots = 7\nretain_days = 30\n\n[security]\nkey_rotation_days = 90\naudit_level = \"full\"\n",
    );
    out.append("```\n");
    proof {
        assert(models.subrange(0, models.len() as int) =~= models);
        assert(out@ =~= markdown_of(config_docs_model()));
    }
    out
}

} // verus!
