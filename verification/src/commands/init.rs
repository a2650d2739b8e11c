//! Setting the tool up for a coding assistant that runs `PreToolUse` hooks:
//! the guide and hook files it writes, and which entries of the assistant's
//! hook settings it replaces.

use vstd::prelude::*;
use crate::text::{chars_of, string_of, push_str};

verus! {

/// The guide to the convention that `init` writes as `AUREUS.md`.
pub const AUREUS_MD: &'static str = r#"# Aureus VRC Integration

Aureus VRC provides **Versioned Release Convention** for Git workflows.

## Quick Start

```bash
# Create a versioned commit
git commit -m "feat: new feature"
# → Automatically rewritten to: aureus-vrc commit

# Suggest versions
aureus-vrc suggest

# Create a release
aureus-vrc release --auto
```

## Convention Configuration

### Commit Format

```
TYPE: PROJECT - vX.Y.Z

- Change description
```

### Commit Types

| Type | SemVer | Trigger Keywords | Usage |
|------|--------|------------------|-------|
| **RELEASE** | MAJOR (X.0.0) | `!`, `BREAKING`, `breaking` | Breaking changes |
| **UPDATE** | MINOR (0.X.0) | `feat`, `refactor`, `add` | New features |
| **PATCH** | PATCH (0.0.X) | `fix`, `bug`, `patch` | Bug fixes |

### Auto-Detection Rules

When you run `git commit -m "..."`, Aureus auto-detects the type:

```bash
git commit -m "feat: add authentication"
# → UPDATE: MyProject - v1.1.0

git commit -m "fix: login bug"
# → PATCH: MyProject - v1.1.1

git commit -m "BREAKING: change API"
# → RELEASE: MyProject - v2.0.0
```

### Customizing Convention

Edit this file to customize keywords:

```markdown
## Aureus Custom Convention

### Release Keywords
! BREAKING breaking major refactor API-change

### Update Keywords
feat feature added new refactor enhance improve

### Patch Keywords
fix bugfix patch corrected hotfix typo
```

### Project Name Detection

1. **Config**: Set in `~/.aureus-vrc/config.toml`:
   ```toml
   [project]
   name = "MyProject"
   ```

2. **Auto**: Falls back to directory name

3. **Override**: Use `aureus-vrc commit --project CustomName`

## Commands Reference

| Command | Description |
|---------|-------------|
| `aureus-vrc commit -m "msg"` | Create versioned commit |
| `aureus-vrc amend -m "more info"` | Amend last commit (same version) |
| `aureus-vrc release --auto` | Create release with tag |
| `aureus-vrc suggest` | Show version suggestions |
| `aureus-vrc config set project.name X` | Set project name |
| `aureus-vrc hooks status` | Check hooks status |

## Hook Behavior

The `PreToolUse` hook intercepts:
- `git commit -m "message"` → `aureus-vrc commit -m "message"`
- `git commit` (no message) → `aureus-vrc commit` (prompts for message)

To bypass: `git commit --no-verify`

## Token Savings

Using Aureus saves tokens by:
- ✅ No MCP server overhead (native CLI)
- ✅ Auto-formatting commit messages
- ✅ Version auto-detection from keywords
- ✅ Single binary (~3MB RAM vs ~50MB for Node.js)
"#;

/// The hook that rewrites `git commit` into the tool's own commit, for Unix shells.
pub const HOOK_SCRIPT_BASH: &'static str = r#"#!/bin/bash
# Aureus auto-rewrite PreToolUse hook (Unix/macOS/Linux)
# Transparently rewrites git commit → aureus-vrc commit

if ! command -v aureus-vrc &>/dev/null || ! command -v jq &>/dev/null; then
  exit 0
fi

INPUT=$(cat)
CMD=$(echo "$INPUT" | jq -r '.tool_input.command // empty')

# Skip if not git commit
if ! echo "$CMD" | grep -qE '^git[[:space:]]+commit'; then
  exit 0
fi

# Extract message if present
MESSAGE=""
if echo "$CMD" | grep -q '\-m'; then
  MESSAGE=$(echo "$CMD" | sed -n 's/.*-m[[:space:]]*"\([^"]*\)".*/\1/p')
fi

# Rewrite to aureus-vrc commit
if [ -n "$MESSAGE" ]; then
  REWRITTEN="aureus-vrc commit -m \"$MESSAGE\""
else
  REWRITTEN="aureus-vrc commit"
fi

ORIGINAL_INPUT=$(echo "$INPUT" | jq -c '.tool_input')
UPDATED_INPUT=$(echo "$ORIGINAL_INPUT" | jq --arg cmd "$REWRITTEN" '.command = $cmd')

jq -n \
  --argjson updated "$UPDATED_INPUT" \
  '{
    "hookSpecificOutput": {
      "hookEventName": "PreToolUse",
      "permissionDecision": "allow",
      "permissionDecisionReason": "Aureus auto-rewrite",
      "updatedInput": $updated
    }
  }'
"#;

/// The same hook for Windows PowerShell.
pub const HOOK_SCRIPT_POWERSHELL: &'static str = r#"# Aureus auto-rewrite PreToolUse hook (Windows)
# Transparently rewrites git commit to aureus-vrc commit
# Requires: aureus-vrc CLI

$ErrorActionPreference = "SilentlyContinue"

# Check if aureus-vrc is available
$hasAureus = Get-Command aureus-vrc -ErrorAction SilentlyContinue

if (-not $hasAureus) {
    exit 0
}

# Read input from stdin
$inputObj = $Input | ConvertFrom-Json
$CMD = $inputObj.tool_input.command

# Skip if not git commit
if ($CMD -notmatch "^git\s+commit") {
    exit 0
}

# Extract message if present
$MESSAGE = ""
if ($CMD -match '\-m\s+"([^"]+)"') {
    $MESSAGE = $matches[1]
}

# Rewrite to aureus-vrc commit
if ($MESSAGE) {
    $REWRITTEN = "aureus-vrc commit -m `"$MESSAGE`""
} else {
    $REWRITTEN = "aureus-vrc commit"
}

# Build output
$UPDATED = @{
    command = $REWRITTEN
} | ConvertTo-Json -Compress

$result = @{
    hookSpecificOutput = @{
        hookEventName = "PreToolUse"
        permissionDecision = "allow"
        permissionDecisionReason = "Aureus auto-rewrite"
        updatedInput = ($UPDATED | ConvertFrom-Json)
    }
}

Write-Output ($result | ConvertTo-Json -Compress)
"#;

/// Whether a file is (re)written: when it is not there yet, or when forced.
pub fn should_write_file(present: bool, force: bool) -> (r: bool)
    ensures
        r == (!present || force),
{
    !present || force
}

/// `s` with every `'\n'` written as `"\r\n"`.
pub open spec fn crlf(s: Seq<char>) -> Seq<char>
    decreases s.len(),
{
    if s.len() == 0 {
        Seq::empty()
    } else if s.last() == '\n' {
        crlf(s.drop_last()) + seq!['\r', '\n']
    } else {
        crlf(s.drop_last()) + seq![s.last()]
    }
}

/// Writes every `'\n'` of `s` as `"\r\n"` (`str::replace('\n', "\r\n")`).
pub fn to_crlf(s: &str) -> (r: String)
    ensures
        r@ == crlf(s@),
{
    let cs = chars_of(s);
    let mut out: Vec<char> = Vec::new();
    let mut i: usize = 0;
    while i < cs.len()
        invariant
            i <= cs@.len(),
            out@ == crlf(cs@.take(i as int)),
        decreases cs@.len() - i,
    {
        let ghost before = cs@.take(i as int);
        let c = cs[i];
        if c == '\n' {
            out.push('\r');
            out.push('\n');
        } else {
            out.push(c);
        }
        proof {
            let after = cs@.take(i + 1);
            assert(after.drop_last() == before);
            assert(after.last() == c);
        }
        i = i + 1;
    }
    assert(cs@.take(cs@.len() as int) == cs@);
    string_of(&out)
}

/// The file name of the hook for the platform.
pub open spec fn hook_file_name(is_windows: bool) -> Seq<char> {
    if is_windows {
        "aureus-rewrite.ps1"@
    } else {
        "aureus-rewrite.sh"@
    }
}

/// The hook file for the platform: its name and its text (PowerShell with
/// Windows line endings, or the shell script as it is).
pub fn hook_script(is_windows: bool) -> (r: (&'static str, String))
    ensures
        r.0@ == hook_file_name(is_windows),
        is_windows ==> r.1@ == crlf(HOOK_SCRIPT_POWERSHELL@),
        !is_windows ==> r.1@ == HOOK_SCRIPT_BASH@,
{
    if is_windows {
        ("aureus-rewrite.ps1", to_crlf(HOOK_SCRIPT_POWERSHELL))
    } else {
        ("aureus-rewrite.sh", HOOK_SCRIPT_BASH.to_string())
    }
}

/// The settings entry that runs the hook: the tool matcher for the platform
/// (`Command` on Windows, `Bash` elsewhere) and the command
/// `~/AGENT_DIR/hooks/FILE`, where `AGENT_DIR` is the assistant's directory
/// in the home directory.
pub fn hook_registration(is_windows: bool, agent_dir: &str, hook_filename: &str) -> (r: (
    &'static str,
    String,
))
    ensures
        r.0@ == (if is_windows {
            "Command"@
        } else {
            "Bash"@
        }),
        r.1@ == "~/"@ + agent_dir@ + "/hooks/"@ + hook_filename@,
{
    let mut path: Vec<char> = Vec::new();
    push_str(&mut path, "~/");
    push_str(&mut path, agent_dir);
    push_str(&mut path, "/hooks/");
    push_str(&mut path, hook_filename);
    let matcher = if is_windows {
        "Command"
    } else {
        "Bash"
    };
    (matcher, string_of(&path))
}

} // verus!
