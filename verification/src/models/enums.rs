//! The enumerations of packages and deployments, with the names under which they are stored.
use vstd::prelude::*;
use crate::json::{all_plain, in_quotes, json_text, read_json_text, write_json_text};
use crate::text::chars::same;

verus! {

/// The kind of a function.
#[derive(Debug, Clone, Copy, PartialEq, Eq, Structural)]
pub enum FunctionType {
    Builtin,
    Custom,
    Macro,
    Logical,
    Wasm,
}

impl Default for FunctionType {
    fn default() -> (r: Self)
        ensures
            r == FunctionType::Custom,
    {
        FunctionType::Custom
    }
}

impl FunctionType {
    /// The name under which the value is stored.
    pub open spec fn text(self) -> Seq<char> {
        match self {
            FunctionType::Builtin => "BUILTIN"@,
            FunctionType::Custom => "CUSTOM"@,
            FunctionType::Macro => "MACRO"@,
            FunctionType::Logical => "LOGICAL"@,
            FunctionType::Wasm => "WASM"@,
        }
    }

    /// The name under which the value is stored.
    pub fn as_text(&self) -> (r: &'static str)
        ensures
            r@ == self.text(),
    {
        match self {
            FunctionType::Builtin => "BUILTIN",
            FunctionType::Custom => "CUSTOM",
            FunctionType::Macro => "MACRO",
            FunctionType::Logical => "LOGICAL",
            FunctionType::Wasm => "WASM",
        }
    }

    /// The value that is stored under a name.
    pub fn from_text(text: &str) -> (r: Option<Self>)
        ensures
            match r {
                Some(v) => v.text() == text@,
                None => forall|v: FunctionType| #![trigger v.text()] v.text() != text@,
            },
    {
        if same(text, "BUILTIN") {
            Some(FunctionType::Builtin)
        } else if same(text, "CUSTOM") {
            Some(FunctionType::Custom)
        } else if same(text, "MACRO") {
            Some(FunctionType::Macro)
        } else if same(text, "LOGICAL") {
            Some(FunctionType::Logical)
        } else if same(text, "WASM") {
            Some(FunctionType::Wasm)
        } else {
            None
        }
    }

    /// Two values with the same name are the same.
    pub proof fn law_names_differ(self, other: Self)
        ensures
            self.text() == other.text() ==> self == other,
    {
        reveal_strlit("BUILTIN");
        reveal_strlit("CUSTOM");
        reveal_strlit("MACRO");
        reveal_strlit("LOGICAL");
        reveal_strlit("WASM");
        assert("BUILTIN"@.len() != "CUSTOM"@.len());
        assert("BUILTIN"@.len() != "MACRO"@.len());
        assert("BUILTIN"@[0] != "LOGICAL"@[0]);
        assert("BUILTIN"@.len() != "WASM"@.len());
        assert("CUSTOM"@.len() != "MACRO"@.len());
        assert("CUSTOM"@.len() != "LOGICAL"@.len());
        assert("CUSTOM"@.len() != "WASM"@.len());
        assert("MACRO"@.len() != "LOGICAL"@.len());
        assert("MACRO"@.len() != "WASM"@.len());
        assert("LOGICAL"@.len() != "WASM"@.len());
    }
}

impl FunctionType {
    /// The value as a JSON string.
    pub fn to_json(&self) -> (r: Vec<u8>)
        ensures
            r@ == in_quotes(self.text()),
            json_text(r@) == Some(self.text()),
    {
        proof {
            reveal_strlit("BUILTIN");
            reveal_strlit("CUSTOM");
            reveal_strlit("MACRO");
            reveal_strlit("LOGICAL");
            reveal_strlit("WASM");
            assert(all_plain(self.text()));
        }
        match write_json_text(self.as_text()) {
            Some(bytes) => bytes,
            None => Vec::new(),
        }
    }

    /// The value that a JSON string names.
    pub fn from_json(data: &Vec<u8>) -> (r: Option<Self>)
        ensures
            match r {
                Some(v) => json_text(data@) == Some(v.text()),
                None => forall|v: FunctionType| #![trigger v.text()] json_text(data@) != Some(v.text()),
            },
    {
        match read_json_text(data) {
            Some(text) => FunctionType::from_text(text.as_str()),
            None => None,
        }
    }
}

/// How far a deployment has come.
#[derive(Debug, Clone, Copy, PartialEq, Eq, Structural)]
pub enum DeploymentCondition {
    Pending,
    Deploying,
    Running,
    Down,
    Deleted,
}

impl Default for DeploymentCondition {
    fn default() -> (r: Self)
        ensures
            r == DeploymentCondition::Pending,
    {
        DeploymentCondition::Pending
    }
}

impl DeploymentCondition {
    /// The name under which the value is stored.
    pub open spec fn text(self) -> Seq<char> {
        match self {
            DeploymentCondition::Pending => "PENDING"@,
            DeploymentCondition::Deploying => "DEPLOYING"@,
            DeploymentCondition::Running => "RUNNING"@,
            DeploymentCondition::Down => "DOWN"@,
            DeploymentCondition::Deleted => "DELETED"@,
        }
    }

    /// The name under which the value is stored.
    pub fn as_text(&self) -> (r: &'static str)
        ensures
            r@ == self.text(),
    {
        match self {
            DeploymentCondition::Pending => "PENDING",
            DeploymentCondition::Deploying => "DEPLOYING",
            DeploymentCondition::Running => "RUNNING",
            DeploymentCondition::Down => "DOWN",
            DeploymentCondition::Deleted => "DELETED",
        }
    }

    /// The value that is stored under a name.
    pub fn from_text(text: &str) -> (r: Option<Self>)
        ensures
            match r {
                Some(v) => v.text() == text@,
                None => forall|v: DeploymentCondition| #![trigger v.text()] v.text() != text@,
            },
    {
        if same(text, "PENDING") {
            Some(DeploymentCondition::Pending)
        } else if same(text, "DEPLOYING") {
            Some(DeploymentCondition::Deploying)
        } else if same(text, "RUNNING") {
            Some(DeploymentCondition::Running)
        } else if same(text, "DOWN") {
            Some(DeploymentCondition::Down)
        } else if same(text, "DELETED") {
            Some(DeploymentCondition::Deleted)
        } else {
            None
        }
    }

    /// Two values with the same name are the same.
    pub proof fn law_names_differ(self, other: Self)
        ensures
            self.text() == other.text() ==> self == other,
    {
        reveal_strlit("PENDING");
        reveal_strlit("DEPLOYING");
        reveal_strlit("RUNNING");
        reveal_strlit("DOWN");
        reveal_strlit("DELETED");
        assert("PENDING"@.len() != "DEPLOYING"@.len());
        assert("PENDING"@[0] != "RUNNING"@[0]);
        assert("PENDING"@.len() != "DOWN"@.len());
        assert("PENDING"@[0] != "DELETED"@[0]);
        assert("DEPLOYING"@.len() != "RUNNING"@.len());
        assert("DEPLOYING"@.len() != "DOWN"@.len());
        assert("DEPLOYING"@.len() != "DELETED"@.len());
        assert("RUNNING"@.len() != "DOWN"@.len());
        assert("RUNNING"@[0] != "DELETED"@[0]);
        assert("DOWN"@.len() != "DELETED"@.len());
    }
}

/// Who may call a function.
#[derive(Debug, Clone, Copy, PartialEq, Eq, Structural)]
pub enum FunctionAccessModifier {
    Public,
    Internal,
    Private,
}

impl Default for FunctionAccessModifier {
    fn default() -> (r: Self)
        ensures
            r == FunctionAccessModifier::Public,
    {
        FunctionAccessModifier::Public
    }
}

impl FunctionAccessModifier {
    /// The name under which the value is stored.
    pub open spec fn text(self) -> Seq<char> {
        match self {
            FunctionAccessModifier::Public => "PUBLIC"@,
            FunctionAccessModifier::Internal => "INTERNAL"@,
            FunctionAccessModifier::Private => "PRIVATE"@,
        }
    }

    /// The name under which the value is stored.
    pub fn as_text(&self) -> (r: &'static str)
        ensures
            r@ == self.text(),
    {
        match self {
            FunctionAccessModifier::Public => "PUBLIC",
            FunctionAccessModifier::Internal => "INTERNAL",
            FunctionAccessModifier::Private => "PRIVATE",
        }
    }

    /// The value that is stored under a name.
    pub fn from_text(text: &str) -> (r: Option<Self>)
        ensures
            match r {
                Some(v) => v.text() == text@,
                None => forall|v: FunctionAccessModifier| #![trigger v.text()] v.text() != text@,
            },
    {
        if same(text, "PUBLIC") {
            Some(FunctionAccessModifier::Public)
        } else if same(text, "INTERNAL") {
            Some(FunctionAccessModifier::Internal)
        } else if same(text, "PRIVATE") {
            Some(FunctionAccessModifier::Private)
        } else {
            None
        }
    }

    /// Two values with the same name are the same.
    pub proof fn law_names_differ(self, other: Self)
        ensures
            self.text() == other.text() ==> self == other,
    {
        reveal_strlit("PUBLIC");
        reveal_strlit("INTERNAL");
        reveal_strlit("PRIVATE");
        assert("PUBLIC"@.len() != "INTERNAL"@.len());
        assert("PUBLIC"@.len() != "PRIVATE"@.len());
        assert("INTERNAL"@.len() != "PRIVATE"@.len());
    }
}

/// What readers of a class's state can rely on.
#[derive(Debug, Clone, Copy, PartialEq, Eq, Structural)]
pub enum ConsistencyModel {
    /// Nothing; stored as `NONE`.
    Unspecified,
    ReadYourWrite,
    BoundedStaleness,
    Strong,
}

impl Default for ConsistencyModel {
    fn default() -> (r: Self)
        ensures
            r == ConsistencyModel::Unspecified,
    {
        ConsistencyModel::Unspecified
    }
}

impl ConsistencyModel {
    /// The name under which the value is stored.
    pub open spec fn text(self) -> Seq<char> {
        match self {
            ConsistencyModel::Unspecified => "NONE"@,
            ConsistencyModel::ReadYourWrite => "READ_YOUR_WRITE"@,
            ConsistencyModel::BoundedStaleness => "BOUNDED_STALENESS"@,
            ConsistencyModel::Strong => "STRONG"@,
        }
    }

    /// The name under which the value is stored.
    pub fn as_text(&self) -> (r: &'static str)
        ensures
            r@ == self.text(),
    {
        match self {
            ConsistencyModel::Unspecified => "NONE",
            ConsistencyModel::ReadYourWrite => "READ_YOUR_WRITE",
            ConsistencyModel::BoundedStaleness => "BOUNDED_STALENESS",
            ConsistencyModel::Strong => "STRONG",
        }
    }

    /// The value that is stored under a name.
    pub fn from_text(text: &str) -> (r: Option<Self>)
        ensures
            match r {
                Some(v) => v.text() == text@,
                None => forall|v: ConsistencyModel| #![trigger v.text()] v.text() != text@,
            },
    {
        if same(text, "NONE") {
            Some(ConsistencyModel::Unspecified)
        } else if same(text, "READ_YOUR_WRITE") {
            Some(ConsistencyModel::ReadYourWrite)
        } else if same(text, "BOUNDED_STALENESS") {
            Some(ConsistencyModel::BoundedStaleness)
        } else if same(text, "STRONG") {
            Some(ConsistencyModel::Strong)
        } else {
            None
        }
    }

    /// Two values with the same name are the same.
    pub proof fn law_names_differ(self, other: Self)
        ensures
            self.text() == other.text() ==> self == other,
    {
        reveal_strlit("NONE");
        reveal_strlit("READ_YOUR_WRITE");
        reveal_strlit("BOUNDED_STALENESS");
        reveal_strlit("STRONG");
        assert("NONE"@.len() != "READ_YOUR_WRITE"@.len());
        assert("NONE"@.len() != "BOUNDED_STALENESS"@.len());
        assert("NONE"@.len() != "STRONG"@.len());
        assert("READ_YOUR_WRITE"@.len() != "BOUNDED_STALENESS"@.len());
        assert("READ_YOUR_WRITE"@.len() != "STRONG"@.len());
        assert("BOUNDED_STALENESS"@.len() != "STRONG"@.len());
    }
}

} // verus!
