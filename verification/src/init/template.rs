//! Hand-written starter configurations.
use crate::text::concat3;
use vstd::prelude::*;

verus! {

/// The stacks that have a starter configuration.
#[derive(Debug, Clone, Copy, PartialEq, Eq, Structural)]
pub enum Template {
    Laravel,
    Rails,
    Node,
    Rust,
}

/// The Laravel configuration up to the project's name.
pub const LARAVEL_HEAD: &'static str = r#"# keel: Laravel + Docker Compose dev loop

[project]
name = ""#;

/// The Laravel configuration behind the project's name.
pub const LARAVEL_TAIL: &'static str = r#""

[runtime]
backend             = "compose"
default_service     = "app"
compose_passthrough = true
service_passthrough = true

[env_files]
files = [".env", ".env.${APP_ENV}"]

[env]
APP_PORT      = { default = "80" }
APP_SERVICE   = { default = "app" }
WWWUSER       = { from_command = "id -u" }
WWWGROUP      = { from_command = "id -g" }

[command.up]
desc = "Start all services"
run  = "docker compose up -d"

[command.down]
desc = "Stop all services"
run  = "docker compose down"

[command.shell]
desc = "Open a shell in the app container"
in   = "app"
run  = "/bin/sh"
tty  = true

[command.artisan]
desc         = "Run an artisan command"
in           = "app"
run          = "php artisan"
tty          = true
forward_args = true

[command.composer]
desc         = "Run a composer command"
in           = "app"
run          = "composer"
tty          = true
forward_args = true

[command.migrate]
desc         = "Run database migrations"
needs        = ["up"]
in           = "app"
run          = "php artisan migrate"
forward_args = true

[command.fresh]
desc  = "Fresh DB with seeds"
needs = ["up"]
in    = "app"
run   = "php artisan migrate:fresh --seed"

[command.test]
desc         = "Run the test suite"
needs        = ["up"]
in           = "app"
run          = "composer test"
forward_args = true

[command.test.profile.ci]
tty = false
env = { XDEBUG_MODE = "off", APP_ENV = "testing" }

[hooks]
pre-commit = ["test"]
"#;

/// The Rails configuration up to the project's name.
pub const RAILS_HEAD: &'static str = r#"# keel: Rails + Docker Compose dev loop

[project]
name = ""#;

/// The Rails configuration behind the project's name.
pub const RAILS_TAIL: &'static str = r#""

[runtime]
backend             = "compose"
default_service     = "web"
compose_passthrough = true
service_passthrough = true

[env_files]
files = [".env"]

[command.up]
desc = "Start all services"
run  = "docker compose up -d"

[command.down]
desc = "Stop all services"
run  = "docker compose down"

[command.shell]
desc = "Open a shell in the web container"
in   = "web"
run  = "/bin/bash"
tty  = true

[command.console]
desc = "Rails console"
in   = "web"
run  = "bin/rails console"
tty  = true

[command.routes]
desc         = "Print routes"
in           = "web"
run          = "bin/rails routes"
forward_args = true

[command.migrate]
desc         = "Run database migrations"
needs        = ["up"]
in           = "web"
run          = "bin/rails db:migrate"
forward_args = true

[command.test]
desc         = "Run RSpec / minitest"
needs        = ["up"]
in           = "web"
run          = "bin/rails test"
forward_args = true
"#;

/// The Node configuration up to the project's name.
pub const NODE_HEAD: &'static str = r#"# keel: Node.js host-based dev loop

[project]
name = ""#;

/// The Node configuration behind the project's name.
pub const NODE_TAIL: &'static str = r#""

[runtime]
backend = "none"

[env_files]
files = [".env", ".env.local"]

[command.dev]
desc = "Start the dev server"
run  = "npm run dev"

[command.build]
desc = "Build for production"
run  = "npm run build"

[command.test]
desc         = "Run tests"
run          = "npm test"
forward_args = true

[command.lint]
desc = "Run linters"
run  = ["npm run lint", "npm run typecheck"]

[command.check]
desc = "Lint + test"
run  = ["lint", "test"]

[hooks]
pre-commit = ["lint"]
"#;

/// The Rust configuration up to the project's name.
pub const RUST_HEAD: &'static str = r#"# keel: Rust workspace dev loop

[project]
name = ""#;

/// The Rust configuration behind the project's name.
pub const RUST_TAIL: &'static str = r#""

[runtime]
backend = "none"

[command.build]
desc         = "Build all crates"
run          = "cargo build --workspace"
forward_args = true

[command.test]
desc         = "Run tests"
run          = "cargo test --workspace"
forward_args = true

[command.fmt]
desc = "Format code"
run  = "cargo fmt --all"

[command.clippy]
desc = "Run clippy with -D warnings"
run  = "cargo clippy --workspace --all-targets -- -D warnings"

[command.check]
desc = "Format check + clippy + test"
run  = ["cargo fmt --all --check", "clippy", "test"]

[command.test.profile.ci]
env = { RUST_BACKTRACE = "1", CI = "true" }

[hooks]
pre-commit = ["check"]
"#;

/// A template up to the project's name.
pub open spec fn head(template: Template) -> Seq<char> {
    match template {
        Template::Laravel => LARAVEL_HEAD@,
        Template::Rails => RAILS_HEAD@,
        Template::Node => NODE_HEAD@,
        Template::Rust => RUST_HEAD@,
    }
}

/// A template behind the project's name.
pub open spec fn tail(template: Template) -> Seq<char> {
    match template {
        Template::Laravel => LARAVEL_TAIL@,
        Template::Rails => RAILS_TAIL@,
        Template::Node => NODE_TAIL@,
        Template::Rust => RUST_TAIL@,
    }
}

/// The starter configuration of a stack, with the project's name filled in.
pub fn render(project_name: &str, template: Template) -> (res: String)
    ensures
        res@ == head(template) + project_name@ + tail(template),
{
    match template {
        Template::Laravel => concat3(LARAVEL_HEAD, project_name, LARAVEL_TAIL),
        Template::Rails => concat3(RAILS_HEAD, project_name, RAILS_TAIL),
        Template::Node => concat3(NODE_HEAD, project_name, NODE_TAIL),
        Template::Rust => concat3(RUST_HEAD, project_name, RUST_TAIL),
    }
}

/// Each stack has a configuration of its own.
pub proof fn law_stacks_have_their_own_text(template: Template)
    ensures
        template == Template::Laravel ==> head(template) == LARAVEL_HEAD@ && tail(template)
            == LARAVEL_TAIL@,
        template == Template::Rails ==> head(template) == RAILS_HEAD@ && tail(template)
            == RAILS_TAIL@,
        template == Template::Node ==> head(template) == NODE_HEAD@ && tail(template)
            == NODE_TAIL@,
        template == Template::Rust ==> head(template) == RUST_HEAD@ && tail(template)
            == RUST_TAIL@,
{
}

} // verus!
