//! User roles and their functions, password policy, electronic signatures, the
//! audit-trail view, system commands, backups and the facility hierarchy.

use crate::pharma::{json_id_value, opt_int, parse_opt_id, JsonId};
use crate::text::{
    chars_of, eq_ignore_ascii_case, eq_ignore_case, eq_str, i64_to_text, int_text, parse_int,
    trim, trim_string,
};
use crate::tree::{build_forest, forest_cut, forest_ok, law_forest_complete, unique_ids, Key, TreeNode};
use vstd::prelude::*;

verus! {

// ---------------------------------------------------------------------------
// Errors
// ---------------------------------------------------------------------------

/// Why a system or user-management request was refused.
#[derive(PartialEq, Eq, Structural, Clone, Copy, Debug)]
pub enum SysError {
    InvalidMinLength,
    InvalidParams,
    SignatureDisabled,
    BadCredentials,
    EmptyEvent,
    MissingBackupPath,
    UnreadableBackup,
    BackupFailed,
    UnsupportedCommand,
    InvalidLevel,
    EmptyName,
    RootWithParent,
    MissingParent,
    ParentNotFound,
    LevelMismatch,
    InvalidParentId,
    NodeNotFound,
    HasChildren,
}

impl SysError {
    /// The API error code: 4040 for a missing node, 5000 for a failed backup,
    /// 10000 otherwise.
    pub fn code(&self) -> (r: i64)
        ensures
            r == match self {
                SysError::NodeNotFound => 4040int,
                SysError::BackupFailed => 5000int,
                _ => 10000int,
            },
    {
        match self {
            SysError::NodeNotFound => 4040,
            SysError::BackupFailed => 5000,
            _ => 10000,
        }
    }

    /// The message shown to the user.
    pub open spec fn text(self) -> Seq<char> {
        match self {
            SysError::InvalidMinLength => "最小密码长度无效"@,
            SysError::InvalidParams => "参数校验失败！"@,
            SysError::SignatureDisabled => "电子签名未启用"@,
            SysError::BadCredentials => "用户名或密码错误"@,
            SysError::EmptyEvent => "事件内容不能为空"@,
            SysError::MissingBackupPath => "请指定备份文件路径"@,
            SysError::UnreadableBackup => "无法读取备份文件"@,
            SysError::BackupFailed => "备份失败"@,
            SysError::UnsupportedCommand => "不支持的系统命令"@,
            SysError::InvalidLevel => "level 必须为 1/2/3"@,
            SysError::EmptyName => "名称不能为空"@,
            SysError::RootWithParent => "一级节点不能有父节点"@,
            SysError::MissingParent => "二/三级节点必须指定父节点"@,
            SysError::ParentNotFound => "父节点不存在"@,
            SysError::LevelMismatch => "父子层级不匹配（应为 厂房→区域→房间）"@,
            SysError::InvalidParentId => "parentId 无效"@,
            SysError::NodeNotFound => "节点不存在"@,
            SysError::HasChildren => "请先删除子节点"@,
        }
    }

    /// The message shown to the user.
    pub fn message(&self) -> (r: &'static str)
        ensures
            r@ == self.text(),
    {
        match self {
            SysError::InvalidMinLength => "最小密码长度无效",
            SysError::InvalidParams => "参数校验失败！",
            SysError::SignatureDisabled => "电子签名未启用",
            SysError::BadCredentials => "用户名或密码错误",
            SysError::EmptyEvent => "事件内容不能为空",
            SysError::MissingBackupPath => "请指定备份文件路径",
            SysError::UnreadableBackup => "无法读取备份文件",
            SysError::BackupFailed => "备份失败",
            SysError::UnsupportedCommand => "不支持的系统命令",
            SysError::InvalidLevel => "level 必须为 1/2/3",
            SysError::EmptyName => "名称不能为空",
            SysError::RootWithParent => "一级节点不能有父节点",
            SysError::MissingParent => "二/三级节点必须指定父节点",
            SysError::ParentNotFound => "父节点不存在",
            SysError::LevelMismatch => "父子层级不匹配（应为 厂房→区域→房间）",
            SysError::InvalidParentId => "parentId 无效",
            SysError::NodeNotFound => "节点不存在",
            SysError::HasChildren => "请先删除子节点",
        }
    }
}

// ---------------------------------------------------------------------------
// Roles and the functions they grant
// ---------------------------------------------------------------------------

/// The roles of the pharmaceutical user model.
#[derive(PartialEq, Eq, Structural, Clone, Copy, Debug)]
pub enum PharmaRole {
    Administrator,
    Supervisor,
    PowerUser,
    User,
    Emergency,
    Nobody,
}

impl PharmaRole {
    /// The role's name.
    pub fn name(&self) -> (r: &'static str)
        ensures
            r@ == match self {
                PharmaRole::Administrator => "Administrator"@,
                PharmaRole::Supervisor => "Supervisor"@,
                PharmaRole::PowerUser => "PowerUser"@,
                PharmaRole::User => "User"@,
                PharmaRole::Emergency => "Emergency"@,
                PharmaRole::Nobody => "Nobody"@,
            },
    {
        match self {
            PharmaRole::Administrator => "Administrator",
            PharmaRole::Supervisor => "Supervisor",
            PharmaRole::PowerUser => "PowerUser",
            PharmaRole::User => "User",
            PharmaRole::Emergency => "Emergency",
            PharmaRole::Nobody => "Nobody",
        }
    }
}

/// The role the audit trail shows for an account role code.
pub open spec fn trail_role_of(code: Seq<char>) -> PharmaRole {
    if code == "super"@ {
        PharmaRole::Administrator
    } else if code == "admin"@ {
        PharmaRole::Supervisor
    } else if code == "emergency"@ {
        PharmaRole::Emergency
    } else if code == "nobody"@ {
        PharmaRole::Nobody
    } else if code == "power_user"@ {
        PharmaRole::PowerUser
    } else {
        PharmaRole::User
    }
}

/// The role the user list shows for an account role code.
pub open spec fn listed_role_of(code: Seq<char>) -> PharmaRole {
    if code == "super"@ {
        PharmaRole::Administrator
    } else if code == "admin"@ {
        PharmaRole::Supervisor
    } else if code == "emergency"@ {
        PharmaRole::Emergency
    } else {
        PharmaRole::User
    }
}

/// The role a signature carries when the account has no pharmaceutical profile.
pub open spec fn signing_role_of(code: Seq<char>) -> PharmaRole {
    if code == "super"@ {
        PharmaRole::Administrator
    } else if code == "admin"@ {
        PharmaRole::Supervisor
    } else {
        PharmaRole::User
    }
}

/// The role shown in the audit trail for an account role code.
pub fn trail_role(role_code: &str) -> (r: PharmaRole)
    ensures
        r == trail_role_of(role_code@),
{
    let c = chars_of(role_code);
    if eq_str(c.as_slice(), "super") {
        PharmaRole::Administrator
    } else if eq_str(c.as_slice(), "admin") {
        PharmaRole::Supervisor
    } else if eq_str(c.as_slice(), "emergency") {
        PharmaRole::Emergency
    } else if eq_str(c.as_slice(), "nobody") {
        PharmaRole::Nobody
    } else if eq_str(c.as_slice(), "power_user") {
        PharmaRole::PowerUser
    } else {
        PharmaRole::User
    }
}

/// The account role code, `user` when the account has no role.
pub open spec fn role_code_or_user(role_code: Option<String>) -> Seq<char> {
    match role_code {
        Some(c) => c@,
        None => "user"@,
    }
}

/// An account role code, `user` when absent.
pub fn role_code_or_default(role_code: Option<String>) -> (r: String)
    ensures
        r@ == role_code_or_user(role_code),
{
    match role_code {
        Some(c) => c,
        None => String::from_str("user"),
    }
}

/// The role shown in the user list for an account role code (`user` when
/// absent).
pub fn listed_role(role_code: &Option<String>) -> (r: PharmaRole)
    ensures
        r == listed_role_of(role_code_or_user(*role_code)),
{
    let c = match role_code {
        Some(code) => chars_of(code.as_str()),
        None => chars_of("user"),
    };
    assert(c@ == role_code_or_user(*role_code));
    if eq_str(c.as_slice(), "super") {
        PharmaRole::Administrator
    } else if eq_str(c.as_slice(), "admin") {
        PharmaRole::Supervisor
    } else if eq_str(c.as_slice(), "emergency") {
        PharmaRole::Emergency
    } else {
        PharmaRole::User
    }
}

/// The role name a signature records: the profile's role when the account has a
/// profile, else the one its role code maps to.
pub fn signing_role(role_code: &str, profile_role: Option<String>) -> (r: String)
    ensures
        r@ == match profile_role {
            Some(p) => p@,
            None => match signing_role_of(role_code@) {
                PharmaRole::Administrator => "Administrator"@,
                PharmaRole::Supervisor => "Supervisor"@,
                _ => "User"@,
            },
        },
{
    match profile_role {
        Some(p) => p,
        None => {
            let c = chars_of(role_code);
            if eq_str(c.as_slice(), "super") {
                String::from_str("Administrator")
            } else if eq_str(c.as_slice(), "admin") {
                String::from_str("Supervisor")
            } else {
                String::from_str("User")
            }
        },
    }
}

/// The functions a role may be granted.
#[derive(PartialEq, Eq, Structural, Clone, Copy, Debug)]
pub enum GroupFunction {
    RecipeView,
    RecipeCreate,
    RecipeModify,
    RecipeDelete,
    SamplingView,
    SamplingCreate,
    SamplingEdit,
    SamplingAbort,
    SamplingDelete,
    SamplingCustomFields,
    SensorsView,
    SensorsSwitch,
    AlarmView,
    AlarmAcknowledge,
    SamplingReportView,
    SamplingReportPrint,
    ReportGeneratorView,
    ReportGeneratorPrint,
    ReportGeneratorExport,
    SystemView,
    SystemConfigure,
    LimitsView,
    LimitsConfigure,
    UserManagement,
    BackupRestore,
    RTTrend,
    RunTimeLogic,
}

impl GroupFunction {
    /// The function's name.
    pub open spec fn text(self) -> Seq<char> {
        match self {
            GroupFunction::RecipeView => "RecipeView"@,
            GroupFunction::RecipeCreate => "RecipeCreate"@,
            GroupFunction::RecipeModify => "RecipeModify"@,
            GroupFunction::RecipeDelete => "RecipeDelete"@,
            GroupFunction::SamplingView => "SamplingView"@,
            GroupFunction::SamplingCreate => "SamplingCreate"@,
            GroupFunction::SamplingEdit => "SamplingEdit"@,
            GroupFunction::SamplingAbort => "SamplingAbort"@,
            GroupFunction::SamplingDelete => "SamplingDelete"@,
            GroupFunction::SamplingCustomFields => "SamplingCustomFields"@,
            GroupFunction::SensorsView => "SensorsView"@,
            GroupFunction::SensorsSwitch => "SensorsSwitch"@,
            GroupFunction::AlarmView => "AlarmView"@,
            GroupFunction::AlarmAcknowledge => "AlarmAcknowledge"@,
            GroupFunction::SamplingReportView => "SamplingReportView"@,
            GroupFunction::SamplingReportPrint => "SamplingReportPrint"@,
            GroupFunction::ReportGeneratorView => "ReportGeneratorView"@,
            GroupFunction::ReportGeneratorPrint => "ReportGeneratorPrint"@,
            GroupFunction::ReportGeneratorExport => "ReportGeneratorExport"@,
            GroupFunction::SystemView => "SystemView"@,
            GroupFunction::SystemConfigure => "SystemConfigure"@,
            GroupFunction::LimitsView => "LimitsView"@,
            GroupFunction::LimitsConfigure => "LimitsConfigure"@,
            GroupFunction::UserManagement => "UserManagement"@,
            GroupFunction::BackupRestore => "BackupRestore"@,
            GroupFunction::RTTrend => "RTTrend"@,
            GroupFunction::RunTimeLogic => "RunTimeLogic"@,
        }
    }

    /// The function's name.
    pub fn name(&self) -> (r: &'static str)
        ensures
            r@ == self.text(),
    {
        match self {
            GroupFunction::RecipeView => "RecipeView",
            GroupFunction::RecipeCreate => "RecipeCreate",
            GroupFunction::RecipeModify => "RecipeModify",
            GroupFunction::RecipeDelete => "RecipeDelete",
            GroupFunction::SamplingView => "SamplingView",
            GroupFunction::SamplingCreate => "SamplingCreate",
            GroupFunction::SamplingEdit => "SamplingEdit",
            GroupFunction::SamplingAbort => "SamplingAbort",
            GroupFunction::SamplingDelete => "SamplingDelete",
            GroupFunction::SamplingCustomFields => "SamplingCustomFields",
            GroupFunction::SensorsView => "SensorsView",
            GroupFunction::SensorsSwitch => "SensorsSwitch",
            GroupFunction::AlarmView => "AlarmView",
            GroupFunction::AlarmAcknowledge => "AlarmAcknowledge",
            GroupFunction::SamplingReportView => "SamplingReportView",
            GroupFunction::SamplingReportPrint => "SamplingReportPrint",
            GroupFunction::ReportGeneratorView => "ReportGeneratorView",
            GroupFunction::ReportGeneratorPrint => "ReportGeneratorPrint",
            GroupFunction::ReportGeneratorExport => "ReportGeneratorExport",
            GroupFunction::SystemView => "SystemView",
            GroupFunction::SystemConfigure => "SystemConfigure",
            GroupFunction::LimitsView => "LimitsView",
            GroupFunction::LimitsConfigure => "LimitsConfigure",
            GroupFunction::UserManagement => "UserManagement",
            GroupFunction::BackupRestore => "BackupRestore",
            GroupFunction::RTTrend => "RTTrend",
            GroupFunction::RunTimeLogic => "RunTimeLogic",
        }
    }
}

/// Whether a role is granted a function.
pub open spec fn grants(role: PharmaRole, f: GroupFunction) -> bool {
    match role {
        PharmaRole::Administrator => true,
        PharmaRole::Supervisor => matches!(f, GroupFunction::RecipeView | GroupFunction::RecipeCreate | GroupFunction::RecipeModify | GroupFunction::SamplingView | GroupFunction::SamplingCreate | GroupFunction::SamplingEdit | GroupFunction::SamplingAbort | GroupFunction::SensorsView | GroupFunction::SensorsSwitch | GroupFunction::AlarmView | GroupFunction::AlarmAcknowledge | GroupFunction::SamplingReportView | GroupFunction::SamplingReportPrint | GroupFunction::ReportGeneratorView | GroupFunction::ReportGeneratorPrint | GroupFunction::SystemView | GroupFunction::LimitsView | GroupFunction::LimitsConfigure | GroupFunction::RTTrend),
        PharmaRole::PowerUser => matches!(f, GroupFunction::RecipeView | GroupFunction::SamplingView | GroupFunction::SamplingCreate | GroupFunction::SensorsView | GroupFunction::AlarmView | GroupFunction::AlarmAcknowledge | GroupFunction::SamplingReportView | GroupFunction::ReportGeneratorView | GroupFunction::LimitsView | GroupFunction::RTTrend),
        PharmaRole::User => matches!(f, GroupFunction::RecipeView | GroupFunction::SamplingView | GroupFunction::SensorsView | GroupFunction::AlarmView | GroupFunction::SamplingReportView | GroupFunction::LimitsView),
        PharmaRole::Emergency => matches!(f, GroupFunction::RecipeView | GroupFunction::RecipeCreate | GroupFunction::RecipeModify | GroupFunction::RecipeDelete | GroupFunction::SamplingView | GroupFunction::SamplingCreate | GroupFunction::SamplingEdit | GroupFunction::SamplingAbort | GroupFunction::SamplingDelete | GroupFunction::SensorsView | GroupFunction::SensorsSwitch | GroupFunction::AlarmView | GroupFunction::AlarmAcknowledge | GroupFunction::SystemView | GroupFunction::SystemConfigure | GroupFunction::UserManagement | GroupFunction::BackupRestore | GroupFunction::RTTrend | GroupFunction::RunTimeLogic),
        PharmaRole::Nobody => matches!(f, GroupFunction::RecipeView | GroupFunction::SamplingView | GroupFunction::SensorsView | GroupFunction::AlarmView | GroupFunction::LimitsView),
    }
}

/// Every function, in the order the lists show them.
pub open spec fn all_functions() -> Seq<GroupFunction> {
    seq![GroupFunction::RecipeView, GroupFunction::RecipeCreate, GroupFunction::RecipeModify, GroupFunction::RecipeDelete, GroupFunction::SamplingView, GroupFunction::SamplingCreate, GroupFunction::SamplingEdit, GroupFunction::SamplingAbort, GroupFunction::SamplingDelete, GroupFunction::SamplingCustomFields, GroupFunction::SensorsView, GroupFunction::SensorsSwitch, GroupFunction::AlarmView, GroupFunction::AlarmAcknowledge, GroupFunction::SamplingReportView, GroupFunction::SamplingReportPrint, GroupFunction::ReportGeneratorView, GroupFunction::ReportGeneratorPrint, GroupFunction::ReportGeneratorExport, GroupFunction::SystemView, GroupFunction::SystemConfigure, GroupFunction::LimitsView, GroupFunction::LimitsConfigure, GroupFunction::UserManagement, GroupFunction::BackupRestore, GroupFunction::RTTrend, GroupFunction::RunTimeLogic]
}

/// The functions of `s` that `role` is granted, in order.
pub open spec fn granted(role: PharmaRole, s: Seq<GroupFunction>) -> Seq<GroupFunction>
    decreases s.len(),
{
    if s.len() == 0 {
        Seq::empty()
    } else if grants(role, s.last()) {
        granted(role, s.drop_last()).push(s.last())
    } else {
        granted(role, s.drop_last())
    }
}

fn function_list() -> (r: Vec<GroupFunction>)
    ensures
        r@ == all_functions(),
{
    let r: Vec<GroupFunction> = vec![GroupFunction::RecipeView, GroupFunction::RecipeCreate, GroupFunction::RecipeModify, GroupFunction::RecipeDelete, GroupFunction::SamplingView, GroupFunction::SamplingCreate, GroupFunction::SamplingEdit, GroupFunction::SamplingAbort, GroupFunction::SamplingDelete, GroupFunction::SamplingCustomFields, GroupFunction::SensorsView, GroupFunction::SensorsSwitch, GroupFunction::AlarmView, GroupFunction::AlarmAcknowledge, GroupFunction::SamplingReportView, GroupFunction::SamplingReportPrint, GroupFunction::ReportGeneratorView, GroupFunction::ReportGeneratorPrint, GroupFunction::ReportGeneratorExport, GroupFunction::SystemView, GroupFunction::SystemConfigure, GroupFunction::LimitsView, GroupFunction::LimitsConfigure, GroupFunction::UserManagement, GroupFunction::BackupRestore, GroupFunction::RTTrend, GroupFunction::RunTimeLogic];
    assert(r@ =~= all_functions());
    r
}

fn grants_exec(role: PharmaRole, f: GroupFunction) -> (r: bool)
    ensures
        r == grants(role, f),
{
    match role {
        PharmaRole::Administrator => true,
        PharmaRole::Supervisor => matches!(f, GroupFunction::RecipeView | GroupFunction::RecipeCreate | GroupFunction::RecipeModify | GroupFunction::SamplingView | GroupFunction::SamplingCreate | GroupFunction::SamplingEdit | GroupFunction::SamplingAbort | GroupFunction::SensorsView | GroupFunction::SensorsSwitch | GroupFunction::AlarmView | GroupFunction::AlarmAcknowledge | GroupFunction::SamplingReportView | GroupFunction::SamplingReportPrint | GroupFunction::ReportGeneratorView | GroupFunction::ReportGeneratorPrint | GroupFunction::SystemView | GroupFunction::LimitsView | GroupFunction::LimitsConfigure | GroupFunction::RTTrend),
        PharmaRole::PowerUser => matches!(f, GroupFunction::RecipeView | GroupFunction::SamplingView | GroupFunction::SamplingCreate | GroupFunction::SensorsView | GroupFunction::AlarmView | GroupFunction::AlarmAcknowledge | GroupFunction::SamplingReportView | GroupFunction::ReportGeneratorView | GroupFunction::LimitsView | GroupFunction::RTTrend),
        PharmaRole::User => matches!(f, GroupFunction::RecipeView | GroupFunction::SamplingView | GroupFunction::SensorsView | GroupFunction::AlarmView | GroupFunction::SamplingReportView | GroupFunction::LimitsView),
        PharmaRole::Emergency => matches!(f, GroupFunction::RecipeView | GroupFunction::RecipeCreate | GroupFunction::RecipeModify | GroupFunction::RecipeDelete | GroupFunction::SamplingView | GroupFunction::SamplingCreate | GroupFunction::SamplingEdit | GroupFunction::SamplingAbort | GroupFunction::SamplingDelete | GroupFunction::SensorsView | GroupFunction::SensorsSwitch | GroupFunction::AlarmView | GroupFunction::AlarmAcknowledge | GroupFunction::SystemView | GroupFunction::SystemConfigure | GroupFunction::UserManagement | GroupFunction::BackupRestore | GroupFunction::RTTrend | GroupFunction::RunTimeLogic),
        PharmaRole::Nobody => matches!(f, GroupFunction::RecipeView | GroupFunction::SamplingView | GroupFunction::SensorsView | GroupFunction::AlarmView | GroupFunction::LimitsView),
    }
}

/// The functions a role is granted, in the order the lists show them.
pub fn role_functions(role: PharmaRole) -> (r: Vec<GroupFunction>)
    ensures
        r@ == granted(role, all_functions()),
{
    let all = function_list();
    let mut out: Vec<GroupFunction> = Vec::new();
    let mut i: usize = 0;
    while i < all.len()
        invariant
            i <= all@.len(),
            all@ == all_functions(),
            out@ == granted(role, all@.take(i as int)),
        decreases all.len() - i,
    {
        assert(all@.take(i + 1).drop_last() =~= all@.take(i as int));
        if grants_exec(role, all[i]) {
            out.push(all[i]);
        }
        i += 1;
    }
    assert(all@.take(all@.len() as int) =~= all@);
    out
}

proof fn lemma_granted_contains(role: PharmaRole, s: Seq<GroupFunction>, f: GroupFunction)
    ensures
        granted(role, s).contains(f) <==> s.contains(f) && grants(role, f),
    decreases s.len(),
{
    if s.len() > 0 {
        lemma_granted_contains(role, s.drop_last(), f);
        let d = s.drop_last();
        if s.contains(f) && !d.contains(f) {
            assert(s.last() == f) by {
                let i = choose|i: int| 0 <= i < s.len() && s[i] == f;
                if i < s.len() - 1 {
                    assert(d[i] == f);
                }
            }
        }
        if d.contains(f) {
            let i = choose|i: int| 0 <= i < d.len() && d[i] == f;
            assert(s[i] == f);
        }
        if granted(role, d).contains(f) {
            let i = choose|i: int| 0 <= i < granted(role, d).len() && granted(role, d)[i] == f;
            if grants(role, s.last()) {
                assert(granted(role, s)[i] == f);
            }
        }
        if grants(role, s.last()) && s.last() == f {
            assert(granted(role, s)[granted(role, s).len() - 1] == f);
        }
    }
}

proof fn lemma_all_functions(f: GroupFunction)
    ensures
        all_functions().contains(f),
{
    let a = all_functions();
    match f {
        GroupFunction::RecipeView => assert(a[0] == f),
        GroupFunction::RecipeCreate => assert(a[1] == f),
        GroupFunction::RecipeModify => assert(a[2] == f),
        GroupFunction::RecipeDelete => assert(a[3] == f),
        GroupFunction::SamplingView => assert(a[4] == f),
        GroupFunction::SamplingCreate => assert(a[5] == f),
        GroupFunction::SamplingEdit => assert(a[6] == f),
        GroupFunction::SamplingAbort => assert(a[7] == f),
        GroupFunction::SamplingDelete => assert(a[8] == f),
        GroupFunction::SamplingCustomFields => assert(a[9] == f),
        GroupFunction::SensorsView => assert(a[10] == f),
        GroupFunction::SensorsSwitch => assert(a[11] == f),
        GroupFunction::AlarmView => assert(a[12] == f),
        GroupFunction::AlarmAcknowledge => assert(a[13] == f),
        GroupFunction::SamplingReportView => assert(a[14] == f),
        GroupFunction::SamplingReportPrint => assert(a[15] == f),
        GroupFunction::ReportGeneratorView => assert(a[16] == f),
        GroupFunction::ReportGeneratorPrint => assert(a[17] == f),
        GroupFunction::ReportGeneratorExport => assert(a[18] == f),
        GroupFunction::SystemView => assert(a[19] == f),
        GroupFunction::SystemConfigure => assert(a[20] == f),
        GroupFunction::LimitsView => assert(a[21] == f),
        GroupFunction::LimitsConfigure => assert(a[22] == f),
        GroupFunction::UserManagement => assert(a[23] == f),
        GroupFunction::BackupRestore => assert(a[24] == f),
        GroupFunction::RTTrend => assert(a[25] == f),
        GroupFunction::RunTimeLogic => assert(a[26] == f),
    }
}

/// A role's list names exactly the functions it is granted.
pub proof fn law_role_functions_listed(role: PharmaRole, f: GroupFunction)
    ensures
        granted(role, all_functions()).contains(f) <==> grants(role, f),
{
    lemma_granted_contains(role, all_functions(), f);
    lemma_all_functions(f);
}

/// The roles are nested: whatever `Nobody` may do a `User` may do, whatever a
/// `User` may do a `PowerUser` may, then a `Supervisor`, then an
/// `Administrator`; and an `Administrator` may do whatever `Emergency` may.
pub proof fn law_role_hierarchy(f: GroupFunction)
    ensures
        grants(PharmaRole::Nobody, f) ==> grants(PharmaRole::User, f),
        grants(PharmaRole::User, f) ==> grants(PharmaRole::PowerUser, f),
        grants(PharmaRole::PowerUser, f) ==> grants(PharmaRole::Supervisor, f),
        grants(PharmaRole::Supervisor, f) ==> grants(PharmaRole::Administrator, f),
        grants(PharmaRole::Emergency, f) ==> grants(PharmaRole::Administrator, f),
{
}

/// The function lists of the roles, in order: an `Administrator` has every
/// function; a `Supervisor` may create, edit and abort samplings but delete
/// nothing, and has no system configuration, user or backup rights; the lists of
/// `PowerUser`, `User`, `Emergency` and `Nobody` are as shown.
pub proof fn law_role_tables()
    ensures
        granted(PharmaRole::Administrator, all_functions()) == all_functions(),
        granted(PharmaRole::Supervisor, all_functions()) == seq![GroupFunction::RecipeView, GroupFunction::RecipeCreate, GroupFunction::RecipeModify, GroupFunction::SamplingView, GroupFunction::SamplingCreate, GroupFunction::SamplingEdit, GroupFunction::SamplingAbort, GroupFunction::SensorsView, GroupFunction::SensorsSwitch, GroupFunction::AlarmView, GroupFunction::AlarmAcknowledge, GroupFunction::SamplingReportView, GroupFunction::SamplingReportPrint, GroupFunction::ReportGeneratorView, GroupFunction::ReportGeneratorPrint, GroupFunction::SystemView, GroupFunction::LimitsView, GroupFunction::LimitsConfigure, GroupFunction::RTTrend],
        granted(PharmaRole::PowerUser, all_functions()) == seq![GroupFunction::RecipeView, GroupFunction::SamplingView, GroupFunction::SamplingCreate, GroupFunction::SensorsView, GroupFunction::AlarmView, GroupFunction::AlarmAcknowledge, GroupFunction::SamplingReportView, GroupFunction::ReportGeneratorView, GroupFunction::LimitsView, GroupFunction::RTTrend],
        granted(PharmaRole::User, all_functions()) == seq![GroupFunction::RecipeView, GroupFunction::SamplingView, GroupFunction::SensorsView, GroupFunction::AlarmView, GroupFunction::SamplingReportView, GroupFunction::LimitsView],
        granted(PharmaRole::Emergency, all_functions()) == seq![GroupFunction::RecipeView, GroupFunction::RecipeCreate, GroupFunction::RecipeModify, GroupFunction::RecipeDelete, GroupFunction::SamplingView, GroupFunction::SamplingCreate, GroupFunction::SamplingEdit, GroupFunction::SamplingAbort, GroupFunction::SamplingDelete, GroupFunction::SensorsView, GroupFunction::SensorsSwitch, GroupFunction::AlarmView, GroupFunction::AlarmAcknowledge, GroupFunction::SystemView, GroupFunction::SystemConfigure, GroupFunction::UserManagement, GroupFunction::BackupRestore, GroupFunction::RTTrend, GroupFunction::RunTimeLogic],
        granted(PharmaRole::Nobody, all_functions()) == seq![GroupFunction::RecipeView, GroupFunction::SamplingView, GroupFunction::SensorsView, GroupFunction::AlarmView, GroupFunction::LimitsView],
        !grants(PharmaRole::Supervisor, GroupFunction::SamplingDelete),
        !grants(PharmaRole::Supervisor, GroupFunction::RecipeDelete),
        grants(PharmaRole::Supervisor, GroupFunction::SamplingAbort),
{
    reveal_with_fuel(granted, 28);
    let a = all_functions();
    assert(granted(PharmaRole::Administrator, a) =~= a);
    assert(granted(PharmaRole::Supervisor, a) =~= seq![GroupFunction::RecipeView, GroupFunction::RecipeCreate, GroupFunction::RecipeModify, GroupFunction::SamplingView, GroupFunction::SamplingCreate, GroupFunction::SamplingEdit, GroupFunction::SamplingAbort, GroupFunction::SensorsView, GroupFunction::SensorsSwitch, GroupFunction::AlarmView, GroupFunction::AlarmAcknowledge, GroupFunction::SamplingReportView, GroupFunction::SamplingReportPrint, GroupFunction::ReportGeneratorView, GroupFunction::ReportGeneratorPrint, GroupFunction::SystemView, GroupFunction::LimitsView, GroupFunction::LimitsConfigure, GroupFunction::RTTrend]);
    assert(granted(PharmaRole::PowerUser, a) =~= seq![GroupFunction::RecipeView, GroupFunction::SamplingView, GroupFunction::SamplingCreate, GroupFunction::SensorsView, GroupFunction::AlarmView, GroupFunction::AlarmAcknowledge, GroupFunction::SamplingReportView, GroupFunction::ReportGeneratorView, GroupFunction::LimitsView, GroupFunction::RTTrend]);
    assert(granted(PharmaRole::User, a) =~= seq![GroupFunction::RecipeView, GroupFunction::SamplingView, GroupFunction::SensorsView, GroupFunction::AlarmView, GroupFunction::SamplingReportView, GroupFunction::LimitsView]);
    assert(granted(PharmaRole::Emergency, a) =~= seq![GroupFunction::RecipeView, GroupFunction::RecipeCreate, GroupFunction::RecipeModify, GroupFunction::RecipeDelete, GroupFunction::SamplingView, GroupFunction::SamplingCreate, GroupFunction::SamplingEdit, GroupFunction::SamplingAbort, GroupFunction::SamplingDelete, GroupFunction::SensorsView, GroupFunction::SensorsSwitch, GroupFunction::AlarmView, GroupFunction::AlarmAcknowledge, GroupFunction::SystemView, GroupFunction::SystemConfigure, GroupFunction::UserManagement, GroupFunction::BackupRestore, GroupFunction::RTTrend, GroupFunction::RunTimeLogic]);
    assert(granted(PharmaRole::Nobody, a) =~= seq![GroupFunction::RecipeView, GroupFunction::SamplingView, GroupFunction::SensorsView, GroupFunction::AlarmView, GroupFunction::LimitsView]);
}

// ---------------------------------------------------------------------------
// Password policy and electronic signatures
// ---------------------------------------------------------------------------

/// The password policy.
pub struct PasswordPolicy {
    pub expire_days: i32,
    pub min_length: i32,
    pub remember_old_count: i32,
    pub auto_logoff_seconds: i32,
    pub electronic_signature_enabled: bool,
}

/// The stored policy, or the default one (90 days, 6 characters, 3 remembered,
/// 30 minutes, signatures on) when none is stored; the stored signature flag is
/// on when it is 1.
pub fn policy_or_default(stored: Option<(i32, i32, i32, i32, i8)>) -> (r: PasswordPolicy)
    ensures
        match stored {
            Some((e, m, k, a, s)) => r == (PasswordPolicy {
                expire_days: e,
                min_length: m,
                remember_old_count: k,
                auto_logoff_seconds: a,
                electronic_signature_enabled: s == 1,
            }),
            None => r == (PasswordPolicy {
                expire_days: 90,
                min_length: 6,
                remember_old_count: 3,
                auto_logoff_seconds: 1800,
                electronic_signature_enabled: true,
            }),
        },
{
    match stored {
        Some((e, m, k, a, s)) => PasswordPolicy {
            expire_days: e,
            min_length: m,
            remember_old_count: k,
            auto_logoff_seconds: a,
            electronic_signature_enabled: s == 1,
        },
        None => PasswordPolicy {
            expire_days: 90,
            min_length: 6,
            remember_old_count: 3,
            auto_logoff_seconds: 1800,
            electronic_signature_enabled: true,
        },
    }
}

/// A new minimum password length must lie in `4..=64`.
pub fn check_min_length(min_length: i32) -> (r: Result<(), SysError>)
    ensures
        4 <= min_length <= 64 <==> r is Ok,
        !(4 <= min_length <= 64) <==> r == Err::<(), SysError>(SysError::InvalidMinLength),
{
    if min_length < 4 || min_length > 64 {
        Err(SysError::InvalidMinLength)
    } else {
        Ok(())
    }
}

/// Checks a signature request before the credentials are looked up: user name,
/// password and action must be given, and signatures must be enabled (they are
/// when no policy is stored).
pub fn check_signature_request(
    user_name: &str,
    password: &str,
    action: &str,
    stored_flag: Option<i8>,
) -> (r: Result<(), SysError>)
    ensures
        user_name@.len() == 0 || password@.len() == 0 || action@.len() == 0 ==> r == Err::<
            (),
            SysError,
        >(SysError::InvalidParams),
        user_name@.len() > 0 && password@.len() > 0 && action@.len() > 0 && stored_flag == Some(
            0i8,
        ) ==> r == Err::<(), SysError>(SysError::SignatureDisabled),
        r is Ok <==> user_name@.len() > 0 && password@.len() > 0 && action@.len() > 0
            && stored_flag != Some(0i8),
{
    if user_name.is_empty() || password.is_empty() || action.is_empty() {
        return Err(SysError::InvalidParams);
    }
    let flag: i8 = match stored_flag {
        Some(f) => f,
        None => 1,
    };
    if flag == 0 {
        return Err(SysError::SignatureDisabled);
    }
    Ok(())
}

// ---------------------------------------------------------------------------
// Audit trail, user events and the user list
// ---------------------------------------------------------------------------

/// The number of audit events listed: 500 by default, kept within `1..=2000`.
pub fn audit_limit(limit: Option<i64>) -> (r: i64)
    ensures
        r == match limit {
            Some(l) => if l < 1 {
                1
            } else if l > 2000 {
                2000
            } else {
                l
            },
            None => 500,
        },
{
    match limit {
        Some(l) => {
            if l < 1 {
                1
            } else if l > 2000 {
                2000
            } else {
                l
            }
        },
        None => 500,
    }
}

/// A user event must have a message that is not blank.
pub fn check_user_event(message: &str) -> (r: Result<(), SysError>)
    ensures
        trim(message@).len() == 0 <==> r == Err::<(), SysError>(SysError::EmptyEvent),
        trim(message@).len() > 0 <==> r is Ok,
{
    let t = trim_string(message);
    if t.as_str().is_empty() {
        Err(SysError::EmptyEvent)
    } else {
        Ok(())
    }
}

/// The code shown for a user: the profile's code, or `UID-<id>`.
pub fn user_id_code(stored: Option<String>, id: i64) -> (r: String)
    ensures
        r@ == match stored {
            Some(c) => c@,
            None => "UID-"@ + int_text(id as int),
        },
{
    match stored {
        Some(c) => c,
        None => {
            let mut r = String::from_str("UID-");
            let t = i64_to_text(id);
            r.append(t.as_str());
            r
        },
    }
}

/// A stored flag that is on when it is 1 (and off when absent).
pub fn flag_is_on(v: Option<i8>) -> (r: bool)
    ensures
        r == (v == Some(1i8)),
{
    match v {
        Some(x) => x == 1,
        None => false,
    }
}

// ---------------------------------------------------------------------------
// Backup, restore, commands, language and setup
// ---------------------------------------------------------------------------

/// The backup configuration.
pub struct BackupConfig {
    pub enabled: bool,
    pub daily_at: String,
    pub target_path: String,
    pub retain_days: i32,
}

/// The stored backup configuration, or the default one (off, at 02:00, into
/// `./backups`, kept 30 days); the stored flag is on when it is 1.
pub fn backup_config_or_default(stored: Option<(i8, String, String, i32)>) -> (r: BackupConfig)
    ensures
        match stored {
            Some((e, d, t, k)) => r.enabled == (e == 1) && r.daily_at@ == d@ && r.target_path@
                == t@ && r.retain_days == k,
            None => !r.enabled && r.daily_at@ == "02:00"@ && r.target_path@ == "./backups"@
                && r.retain_days == 30,
        },
{
    match stored {
        Some((e, d, t, k)) => BackupConfig {
            enabled: e == 1,
            daily_at: d,
            target_path: t,
            retain_days: k,
        },
        None => BackupConfig {
            enabled: false,
            daily_at: String::from_str("02:00"),
            target_path: String::from_str("./backups"),
            retain_days: 30,
        },
    }
}

/// The directory a manual backup is written to: the configured one, or
/// `./backups`.
pub fn backup_target(stored: Option<String>) -> (r: String)
    ensures
        r@ == match stored {
            Some(t) => t@,
            None => "./backups"@,
        },
{
    match stored {
        Some(t) => t,
        None => String::from_str("./backups"),
    }
}

/// The file name of a backup taken at `stamp`: `pharma_backup_<stamp>.json`.
pub fn backup_file_name(stamp: &str) -> (r: String)
    ensures
        r@ == "pharma_backup_"@ + stamp@ + ".json"@,
{
    let mut r = String::from_str("pharma_backup_");
    r.append(stamp);
    r.append(".json");
    r
}

/// How a backup job ended.
pub struct BackupOutcome {
    pub succeeded: bool,
    pub status: String,
    pub message: String,
}

/// The outcome of writing a backup file, from the write error if there was one:
/// `success` with `备份完成`, or `failed` with `写入失败: <error>`.
pub fn backup_outcome(write_error: Option<String>) -> (r: BackupOutcome)
    ensures
        r.succeeded == (write_error is None),
        match write_error {
            None => r.status@ == "success"@ && r.message@ == "备份完成"@,
            Some(e) => r.status@ == "failed"@ && r.message@ == "写入失败: "@ + e@,
        },
{
    match write_error {
        None => BackupOutcome {
            succeeded: true,
            status: String::from_str("success"),
            message: String::from_str("备份完成"),
        },
        Some(e) => {
            let mut m = String::from_str("写入失败: ");
            m.append(e.as_str());
            BackupOutcome { succeeded: false, status: String::from_str("failed"), message: m }
        },
    }
}

/// The setup mode a restore records, after checking that a file was named:
/// `restoreFacilityPro` for a Facility Pro backup, else `restoreFromBackup`.
pub fn restore_mode(backup_file_path: &str, facility_pro: Option<bool>) -> (r: Result<
    &'static str,
    SysError,
>)
    ensures
        trim(backup_file_path@).len() == 0 ==> r == Err::<&'static str, SysError>(
            SysError::MissingBackupPath,
        ),
        trim(backup_file_path@).len() > 0 ==> (r matches Ok(m) && m@ == if facility_pro == Some(
            true,
        ) {
            "restoreFacilityPro"@
        } else {
            "restoreFromBackup"@
        }),
{
    let t = trim_string(backup_file_path);
    if t.as_str().is_empty() {
        return Err(SysError::MissingBackupPath);
    }
    let pro = match facility_pro {
        Some(b) => b,
        None => false,
    };
    if pro {
        Ok("restoreFacilityPro")
    } else {
        Ok("restoreFromBackup")
    }
}

/// The system commands a client may record.
pub open spec fn allowed_command(action: Seq<char>) -> bool {
    action == "closeApp"@ || action == "restart"@ || action == "shutdown"@ || action
        == "shutdownDisconnectedClient"@ || action == "resetBuffer"@
}

/// A system command must be one of `closeApp`, `restart`, `shutdown`,
/// `shutdownDisconnectedClient` and `resetBuffer`.
pub fn check_system_command(action: &str) -> (r: Result<(), SysError>)
    ensures
        allowed_command(action@) <==> r is Ok,
        !allowed_command(action@) <==> r == Err::<(), SysError>(SysError::UnsupportedCommand),
{
    let c = chars_of(action);
    if eq_str(c.as_slice(), "closeApp") || eq_str(c.as_slice(), "restart") || eq_str(
        c.as_slice(),
        "shutdown",
    ) || eq_str(c.as_slice(), "shutdownDisconnectedClient") || eq_str(
        c.as_slice(),
        "resetBuffer",
    ) {
        Ok(())
    } else {
        Err(SysError::UnsupportedCommand)
    }
}

/// The language setting stored for a locale: its display name defaults to the
/// locale itself.
pub fn language_setting(locale: String, display_name: Option<String>) -> (r: (String, String))
    ensures
        r.0@ == locale@,
        r.1@ == match display_name {
            Some(d) => d@,
            None => locale@,
        },
{
    let shown = match display_name {
        Some(d) => d,
        None => String::from_str(locale.as_str()),
    };
    (locale, shown)
}

/// The setup mode recorded when the database is initialised (default
/// `newInstallation`).
pub fn setup_mode(mode: Option<String>) -> (r: String)
    ensures
        r@ == match mode {
            Some(m) => m@,
            None => "newInstallation"@,
        },
{
    match mode {
        Some(m) => m,
        None => String::from_str("newInstallation"),
    }
}

// ---------------------------------------------------------------------------
// The facility hierarchy: sites, areas and rooms
// ---------------------------------------------------------------------------

/// The label of a facility level: 1 a site, 2 an area, 3 a room.
pub fn level_label(level: i8) -> (r: &'static str)
    ensures
        r@ == if level == 1 {
            "厂房/园区"@
        } else if level == 2 {
            "区域/洁净区"@
        } else if level == 3 {
            "房间"@
        } else {
            "未知"@
        },
{
    if level == 1 {
        "厂房/园区"
    } else if level == 2 {
        "区域/洁净区"
    } else if level == 3 {
        "房间"
    } else {
        "未知"
    }
}

/// A facility node to insert once its parent has been checked.
pub struct NewFacility {
    pub parent_id: Option<i64>,
    pub level: i8,
    pub name: String,
}

/// The checks made on a new facility node before its parent is looked up: the
/// level must be 1, 2 or 3, the name must not be blank, a site has no parent and
/// an area or room must have one.
pub fn check_new_facility(level: i8, name: &str, parent_id: &Option<JsonId>) -> (r: Result<
    NewFacility,
    SysError,
>)
    ensures
        !(1 <= level <= 3) ==> r == Err::<NewFacility, SysError>(SysError::InvalidLevel),
        1 <= level <= 3 && trim(name@).len() == 0 ==> r == Err::<NewFacility, SysError>(
            SysError::EmptyName,
        ),
        ({
            let parent = match *parent_id {
                Some(v) => json_id_value(v),
                None => None,
            };
            &&& 1 <= level <= 3 && trim(name@).len() > 0 && level == 1 && parent is Some ==> r
                == Err::<NewFacility, SysError>(SysError::RootWithParent)
            &&& 1 <= level <= 3 && trim(name@).len() > 0 && level != 1 && parent is None ==> r
                == Err::<NewFacility, SysError>(SysError::MissingParent)
            &&& r is Ok <==> 1 <= level <= 3 && trim(name@).len() > 0 && (level == 1
                <==> parent is None)
            &&& r matches Ok(n) ==> n.level == level && n.name@ == trim(name@) && opt_int(
                n.parent_id,
            ) == parent
        }),
{
    if level < 1 || level > 3 {
        return Err(SysError::InvalidLevel);
    }
    let n = trim_string(name);
    if n.as_str().is_empty() {
        return Err(SysError::EmptyName);
    }
    let parent = parse_opt_id(parent_id);
    if level == 1 {
        if parent.is_some() {
            return Err(SysError::RootWithParent);
        }
    } else if parent.is_none() {
        return Err(SysError::MissingParent);
    }
    Ok(NewFacility { parent_id: parent, level, name: n })
}

/// The parent of an area or room must exist and sit one level up.
pub fn check_parent_level(level: i8, parent_level: Option<i8>) -> (r: Result<(), SysError>)
    ensures
        parent_level is None ==> r == Err::<(), SysError>(SysError::ParentNotFound),
        parent_level matches Some(p) && p + 1 != level ==> r == Err::<(), SysError>(
            SysError::LevelMismatch,
        ),
        r is Ok <==> (parent_level matches Some(p) && p + 1 == level),
{
    match parent_level {
        None => Err(SysError::ParentNotFound),
        Some(p) => {
            let up: i16 = p as i16 + 1;
            if up != level as i16 {
                Err(SysError::LevelMismatch)
            } else {
                Ok(())
            }
        },
    }
}

/// The checks made on an update of a facility node: the name must not be blank
/// and the node must exist. Returns the trimmed name.
pub fn check_facility_update(name: &str, exists: bool) -> (r: Result<String, SysError>)
    ensures
        trim(name@).len() == 0 ==> r == Err::<String, SysError>(SysError::EmptyName),
        trim(name@).len() > 0 && !exists ==> r == Err::<String, SysError>(SysError::NodeNotFound),
        trim(name@).len() > 0 && exists ==> (r matches Ok(n) && n@ == trim(name@)),
{
    let n = trim_string(name);
    if n.as_str().is_empty() {
        return Err(SysError::EmptyName);
    }
    if !exists {
        return Err(SysError::NodeNotFound);
    }
    Ok(n)
}

/// A node may be deleted only when it has no children, and only if it exists.
pub fn check_facility_delete(has_child: bool, deleted_rows: u64) -> (r: Result<(), SysError>)
    ensures
        has_child ==> r == Err::<(), SysError>(SysError::HasChildren),
        !has_child && deleted_rows == 0 ==> r == Err::<(), SysError>(SysError::NodeNotFound),
        r is Ok <==> !has_child && deleted_rows > 0,
{
    if has_child {
        Err(SysError::HasChildren)
    } else if deleted_rows == 0 {
        Err(SysError::NodeNotFound)
    } else {
        Ok(())
    }
}

/// Which facility nodes a list shows.
#[derive(PartialEq, Eq, Structural, Clone, Copy, Debug)]
pub enum FacilityFilter {
    /// The nodes of one level.
    Level(i8),
    /// The nodes without a parent.
    Roots,
    /// The children of one node.
    Children(i64),
    /// Every node.
    All,
}

/// The filter a list query selects: a level first; else a parent id, where `0`
/// and `null` (in any case) mean the roots and anything else must be a decimal
/// `i64`; else every node.
pub fn facility_filter(parent_id: &Option<String>, level: Option<i8>) -> (r: Result<
    FacilityFilter,
    SysError,
>)
    ensures
        level matches Some(l) ==> r == Ok::<FacilityFilter, SysError>(FacilityFilter::Level(l)),
        level is None ==> match *parent_id {
            Some(p) => if p@.len() == 0 {
                r == Ok::<FacilityFilter, SysError>(FacilityFilter::All)
            } else if p@ == "0"@ || eq_ignore_case(p@, "null"@) {
                r == Ok::<FacilityFilter, SysError>(FacilityFilter::Roots)
            } else {
                match parse_int(p@, true, i64::MIN as int, i64::MAX as int) {
                    Some(v) => r matches Ok(FacilityFilter::Children(x)) && x == v,
                    None => r == Err::<FacilityFilter, SysError>(SysError::InvalidParentId),
                }
            },
            None => r == Ok::<FacilityFilter, SysError>(FacilityFilter::All),
        },
{
    if let Some(l) = level {
        return Ok(FacilityFilter::Level(l));
    }
    match parent_id {
        None => Ok(FacilityFilter::All),
        Some(p) => {
            if p.as_str().is_empty() {
                return Ok(FacilityFilter::All);
            }
            let c = chars_of(p.as_str());
            if eq_str(c.as_slice(), "0") || eq_ignore_ascii_case(c.as_slice(), "null") {
                return Ok(FacilityFilter::Roots);
            }
            match crate::text::parse_i64(c.as_slice()) {
                Some(v) => Ok(FacilityFilter::Children(v)),
                None => Err(SysError::InvalidParentId),
            }
        },
    }
}

/// The facility tree: the nodes without a parent at the top, each with its
/// children below it, in record order. Records are `(id, parent id)`.
pub fn facility_tree(nodes: &Vec<Key>) -> (r: Vec<TreeNode>)
    ensures
        forest_cut(nodes@, None, r@, nodes@.len()),
{
    build_forest(nodes, None)
}

/// With distinct node ids the facility tree holds every node reachable from a
/// site: below its last level no node is left out.
pub proof fn law_facility_tree_complete(nodes: Seq<Key>, tree: Seq<TreeNode>)
    requires
        unique_ids(nodes),
        forest_cut(nodes, None, tree, nodes.len()),
    ensures
        forest_ok(nodes, None, tree, nodes.len()),
{
    law_forest_complete(nodes, None, tree);
}

} // verus!
