//! A file put together: `this` is bound in the classes, the lists of statements
//! are flattened, and the templates and the delegated events come around them.

use crate::ast::{group_values, stmt_values, Stmt, StmtV, VarKind};
use crate::capture::{log_values, Rewrite, RewriteV};
use crate::capture_class::{
    capture_class_component_this, member_values, members_caught, ClassMember, ClassMemberV,
};
use crate::copy::{copied_expr_option, copied_stmt, copied_stmts};
use crate::flatten_all::{flatten_members, flatten_stmt, member_f, stmt_f};
use crate::imports::{import_values, new_imports};
use crate::ir::{BlockContext, ContextV, HelperImport, ImportV};
use crate::options::TransformOptions;
use crate::program::{
    delegation_v, exit_program, file_imports, template_declarators, FileParts,
};
use crate::refresh_names::holds;
use crate::text::texts;
use vstd::prelude::*;

verus! {

broadcast use group_values;

/// A statement of a file: a class with its members, or another one.
#[derive(Debug)]
pub enum FileStmt {
    Class { id: u32, members: Vec<ClassMember> },
    Plain(Stmt),
}

/// The value of a `FileStmt`.
pub ghost enum FileStmtV {
    Class { id: u32, members: Seq<ClassMemberV> },
    Plain(StmtV),
}

impl View for FileStmt {
    type V = FileStmtV;

    open spec fn view(&self) -> FileStmtV {
        match *self {
            FileStmt::Class { id, members } => FileStmtV::Class {
                id,
                members: member_values(members@),
            },
            FileStmt::Plain(stmt) => FileStmtV::Plain(stmt@),
        }
    }
}

pub open spec fn file_values(items: Seq<FileStmt>) -> Seq<FileStmtV> {
    items.map_values(|item: FileStmt| item@)
}

/// Nothing rewritten yet.
pub open spec fn unwritten(context: ContextV) -> RewriteV {
    RewriteV { context, alias: None, handled: false, allow: false, rewritten: Seq::empty() }
}

/// What the first `n` statements become where `this` is bound in the classes.
pub open spec fn file_caught(items: Seq<FileStmt>, n: nat, held: Seq<u32>, st: RewriteV) -> (
    Seq<FileStmtV>,
    RewriteV,
)
    decreases n,
{
    if n == 0 {
        (Seq::empty(), st)
    } else {
        let (before, st) = file_caught(items, (n - 1) as nat, held, st);
        match items[n - 1] {
            FileStmt::Class { id, members } => {
                let (members, st) = members_caught(members@, members@.len(), held, st);
                (before.push(FileStmtV::Class { id, members }), st)
            },
            FileStmt::Plain(stmt) => (before.push(FileStmtV::Plain(stmt@)), st),
        }
    }
}

/// What a statement becomes where the lists are flattened.
pub open spec fn file_stmt_flat(stmt: FileStmtV) -> Seq<FileStmtV> {
    match stmt {
        FileStmtV::Class { id, members } => seq![
            FileStmtV::Class {
                id,
                members: members.map_values(|member: ClassMemberV| member_f(member)),
            },
        ],
        FileStmtV::Plain(stmt) => stmt_f(stmt).map_values(|s: StmtV| FileStmtV::Plain(s)),
    }
}

/// What the first `n` statements become where the lists are flattened.
pub open spec fn file_flat(items: Seq<FileStmtV>, n: nat) -> Seq<FileStmtV>
    decreases n,
{
    if n == 0 {
        Seq::empty()
    } else {
        file_flat(items, (n - 1) as nat) + file_stmt_flat(items[n - 1])
    }
}

/// The templates, in front of the body.
pub open spec fn file_front(ctx: ContextV, options: TransformOptions) -> Seq<FileStmtV> {
    if ctx.templates.len() > 0 && !(options.generate is Universal) {
        seq![
            FileStmtV::Plain(
                StmtV::Var {
                    kind: VarKind::Var,
                    declarators: template_declarators(ctx.templates),
                },
            ),
        ]
    } else {
        seq![]
    }
}

/// The delegated events, behind the body.
pub open spec fn file_back(ctx: ContextV) -> Seq<FileStmtV> {
    if ctx.delegates.len() > 0 {
        seq![FileStmtV::Plain(StmtV::Expr(delegation_v(ctx.delegates)))]
    } else {
        seq![]
    }
}

/// The context behind a file.
pub open spec fn file_end(ctx: ContextV) -> ContextV {
    if ctx.delegates.len() > 0 {
        ctx.register("delegateEvents"@)
    } else {
        ctx
    }
}

/// The imports that a file gets: none where nothing was transformed.
pub open spec fn file_added(
    ctx: ContextV,
    options: TransformOptions,
    taken: Seq<Seq<char>>,
) -> Seq<ImportV> {
    if ctx.helpers.len() == 0 && ctx.templates.len() == 0 && ctx.delegates.len() == 0 {
        seq![]
    } else {
        new_imports(file_imports(file_end(ctx), options), taken).0
    }
}

/// A file with its classes looked through: only where a component is made.
pub open spec fn file_bound(items: Seq<FileStmt>, held: Seq<u32>, ctx: ContextV) -> (
    Seq<FileStmtV>,
    RewriteV,
) {
    if ctx.helpers.contains("createComponent"@) {
        file_caught(items, items.len(), held, unwritten(ctx))
    } else {
        (file_values(items), unwritten(ctx))
    }
}

/// A file that is done.
pub struct FinishedFile<'a> {
    pub context: BlockContext<'a>,
    /// The helpers to import in front of the body, in their order.
    pub imports: Vec<HelperImport>,
    pub body: Vec<FileStmt>,
    /// The nodes that are carried along and in which `this` is to be replaced
    /// by the name.
    pub rewritten: Vec<(u32, String)>,
}

fn copied_members(members: &Vec<ClassMember>) -> (copy: Vec<ClassMember>)
    ensures
        member_values(copy@) == member_values(members@),
{
    let mut copy: Vec<ClassMember> = Vec::new();
    let mut i: usize = 0;
    while i < members.len()
        invariant
            i <= members@.len(),
            copy@.len() == i,
            forall|k: int| 0 <= k < i ==> (#[trigger] copy@[k])@ == members@[k]@,
        decreases members@.len() - i,
    {
        let member = match &members[i] {
            ClassMember::Method(Some(body)) => ClassMember::Method(Some(copied_stmts(body))),
            ClassMember::Method(None) => ClassMember::Method(None),
            ClassMember::Property(value) => ClassMember::Property(copied_expr_option(value)),
            ClassMember::Opaque(id) => ClassMember::Opaque(*id),
        };
        copy.push(member);
        i = i + 1;
    }
    proof {
        assert(member_values(copy@) =~= member_values(members@));
    }
    copy
}

fn copied_file(body: &Vec<FileStmt>) -> (copy: Vec<FileStmt>)
    ensures
        file_values(copy@) == file_values(body@),
{
    let mut copy: Vec<FileStmt> = Vec::new();
    let mut i: usize = 0;
    while i < body.len()
        invariant
            i <= body@.len(),
            copy@.len() == i,
            forall|k: int| 0 <= k < i ==> (#[trigger] copy@[k])@ == body@[k]@,
        decreases body@.len() - i,
    {
        let stmt = match &body[i] {
            FileStmt::Class { id, members } => FileStmt::Class {
                id: *id,
                members: copied_members(members),
            },
            FileStmt::Plain(stmt) => FileStmt::Plain(copied_stmt(stmt)),
        };
        copy.push(stmt);
        i = i + 1;
    }
    proof {
        assert(file_values(copy@) =~= file_values(body@));
    }
    copy
}

/// Binds `this` in the classes of a file.
pub fn apply_class_component_this_capture(
    body: &Vec<FileStmt>,
    held: &Vec<u32>,
    st: &mut Rewrite,
) -> (done: Vec<FileStmt>)
    ensures
        (file_values(done@), final(st)@) == file_caught(body@, body@.len(), held@, old(st)@),
{
    let mut done: Vec<FileStmt> = Vec::new();
    let mut i: usize = 0;
    proof {
        assert(file_values(done@) =~= Seq::empty());
    }
    while i < body.len()
        invariant
            i <= body@.len(),
            (file_values(done@), st@) == file_caught(body@, i as nat, held@, old(st)@),
        decreases body@.len() - i,
    {
        let ghost before = done@;
        let stmt = match &body[i] {
            FileStmt::Class { id, members } => FileStmt::Class {
                id: *id,
                members: capture_class_component_this(members, held, st),
            },
            FileStmt::Plain(stmt) => FileStmt::Plain(copied_stmt(stmt)),
        };
        done.push(stmt);
        proof {
            assert(file_values(done@) =~= file_values(before).push(stmt@));
        }
        i = i + 1;
    }
    done
}

/// Adds statements that are no classes.
fn push_plain(list: &mut Vec<FileStmt>, stmts: Vec<Stmt>)
    ensures
        file_values(final(list)@) == file_values(old(list)@) + stmt_values(stmts@).map_values(
            |s: StmtV| FileStmtV::Plain(s),
        ),
{
    let ghost want = stmt_values(stmts@).map_values(|s: StmtV| FileStmtV::Plain(s));
    let ghost first = list@;
    let mut i: usize = 0;
    while i < stmts.len()
        invariant
            i <= stmts@.len(),
            want == stmt_values(stmts@).map_values(|s: StmtV| FileStmtV::Plain(s)),
            list@.len() == first.len() + i,
            forall|k: int| 0 <= k < first.len() ==> #[trigger] list@[k] == first[k],
            forall|k: int|
                first.len() <= k < list@.len() ==> (#[trigger] list@[k])@ == want[k - first.len()],
        decreases stmts@.len() - i,
    {
        list.push(FileStmt::Plain(copied_stmt(&stmts[i])));
        i = i + 1;
    }
    proof {
        assert(file_values(list@) =~= file_values(first) + want);
    }
}

/// Flattens every list of statements of a file, behind the ones given.
pub fn flatten_statement_position_iifes(body: &Vec<FileStmt>, list: &mut Vec<FileStmt>)
    ensures
        file_values(final(list)@) == file_values(old(list)@) + file_flat(
            file_values(body@),
            body@.len(),
        ),
{
    let mut i: usize = 0;
    let ghost first = file_values(list@);
    proof {
        assert(first + Seq::<FileStmtV>::empty() =~= first);
    }
    while i < body.len()
        invariant
            i <= body@.len(),
            file_values(list@) == first + file_flat(file_values(body@), i as nat),
        decreases body@.len() - i,
    {
        let ghost before = list@;
        match &body[i] {
            FileStmt::Class { id, members } => {
                let stmt = FileStmt::Class { id: *id, members: flatten_members(members) };
                list.push(stmt);
            },
            FileStmt::Plain(stmt) => {
                let mut here: Vec<Stmt> = Vec::new();
                flatten_stmt(stmt, &mut here);
                push_plain(list, here);
            },
        }
        proof {
            let here = file_stmt_flat(file_values(body@)[i as int]);
            assert(file_values(list@) =~= file_values(before) + here);
            assert(first + (file_flat(file_values(body@), i as nat) + here) =~= (first + file_flat(
                file_values(body@),
                i as nat,
            )) + here);
        }
        i = i + 1;
    }
}

/// Puts a file together.  `taken` are the local names of the imports that the
/// file has; `held` are the nodes that are carried along and hold `this`.
pub fn finish_program<'a>(
    context: BlockContext<'a>,
    options: &TransformOptions,
    taken: Vec<String>,
    held: &Vec<u32>,
    body: &Vec<FileStmt>,
) -> (done: FinishedFile<'a>)
    ensures
        ({
            let (bound, st) = file_bound(body@, held@, context@);
            &&& file_values(done.body@) == file_front(st.context, *options) + file_flat(
                bound,
                bound.len(),
            ) + file_back(st.context)
            &&& done.context@ == file_end(st.context)
            &&& import_values(done.imports@) == file_added(st.context, *options, texts(taken@))
            &&& log_values(done.rewritten@) == st.rewritten
        }),
{
    let creates = holds(&context.helpers_vec(), "createComponent");
    let mut st = Rewrite {
        context,
        alias: None,
        handled: false,
        allow: false,
        rewritten: Vec::new(),
    };
    proof {
        assert(log_values(st.rewritten@) =~= Seq::empty());
    }
    let bound = if creates {
        apply_class_component_this_capture(body, held, &mut st)
    } else {
        copied_file(body)
    };
    let Rewrite { context, rewritten, .. } = st;
    let mut context = context;
    let ghost ctx = context@;
    let parts = exit_program(&mut context, options, taken);
    let mut list: Vec<FileStmt> = Vec::new();
    let mut imports: Vec<HelperImport> = Vec::new();
    let mut back: Vec<FileStmt> = Vec::new();
    proof {
        assert(import_values(imports@) =~= seq![]);
    }
    if let Some(parts) = parts {
        let FileParts { imports: added, templates, delegation } = parts;
        imports = added;
        if let Some(stmt) = templates {
            list.push(FileStmt::Plain(stmt));
        }
        if let Some(call) = delegation {
            back.push(FileStmt::Plain(Stmt::Expr(call)));
        }
    }
    proof {
        assert(file_values(list@) =~= file_front(ctx, *options));
        assert(file_values(back@) =~= file_back(ctx));
    }
    flatten_statement_position_iifes(&bound, &mut list);
    let ghost front = list@;
    let ghost behind = back@;
    list.append(&mut back);
    proof {
        assert(file_values(list@) =~= file_values(front) + file_values(behind));
    }
    FinishedFile { context, imports, body: list, rewritten }
}

} // verus!
