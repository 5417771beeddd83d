//! Zsh initialization script generation.
//!
//! The script, when eval'd, sets up capsule prompt integration: the
//! `capsule connect` coprocess relay, precmd/preexec hooks, and handling of
//! asynchronous prompt updates, falling back to `%~ %# ` without the relay.
use vstd::prelude::*;

verus! {

/// The zsh integration script.
pub const ZSH_INIT_SCRIPT: &'static str = "# capsule zsh integration.\n#\n# A `capsule connect` coprocess relays prompt requests to the daemon.\n# Requests:  <gen>\\t<exit>\\t<dur>\\t<cwd>\\t<cols>\\t<keymap>\\t<env_meta>\n# Responses: <kind>\\t<gen>\\t<left1>\\t<left2>   (kind R = render, U = update)\n\nzmodload zsh/datetime 2>/dev/null\nzmodload zsh/system 2>/dev/null\n\ntypeset -g _CAPSULE_SESSION_ID=\"\"\ntypeset -g _CAPSULE_FD=\"\"\ntypeset -g _CAPSULE_ENV_NAMES=\"\"\ntypeset -gi _CAPSULE_GENERATION=0\ntypeset -g _CAPSULE_CMD_START=\"\"\ntypeset -g _CAPSULE_DURATION=\"\"\ntypeset -g _CAPSULE_FALLBACK='%~ %# '\n\n_capsule_session_id() {\n    local hex\n    hex=$(od -An -N8 -tx1 /dev/urandom 2>/dev/null | tr -d ' \\n')\n    _CAPSULE_SESSION_ID=${hex:-$$}\n}\n\n_capsule_start_coproc() {\n    setopt localoptions no_monitor no_notify no_check_running_jobs\n    command -v capsule >/dev/null 2>&1 || return 1\n    coproc capsule connect 2>/dev/null\n    local line\n    if ! read -r -t 5 line <&p; then\n        return 1\n    fi\n    [[ $line == E:* ]] && _CAPSULE_ENV_NAMES=${line#E:}\n    exec {_CAPSULE_FD}<&p\n    zle -F $_CAPSULE_FD _capsule_async_callback 2>/dev/null\n    return 0\n}\n\n_capsule_env_meta() {\n    local name meta=\"\" sep=\"\"\n    for name in ${(s:,:)_CAPSULE_ENV_NAMES}; do\n        if (( ${+parameters[$name]} )); then\n            meta+=\"${sep}${name}=${(P)name}\"\n            sep=$'\\0'\n        fi\n    done\n    print -rn -- \"$meta\"\n}\n\n_capsule_apply() {\n    local left1=$1 left2=$2\n    PROMPT=\"${left1}\"$'\\n'\"${left2} \"\n}\n\n_capsule_fallback() {\n    PROMPT=$_CAPSULE_FALLBACK\n}\n\n_capsule_preexec() {\n    _CAPSULE_CMD_START=$EPOCHREALTIME\n}\n\n_capsule_precmd() {\n    local exit_code=$?\n    _CAPSULE_DURATION=\"\"\n    if [[ -n $_CAPSULE_CMD_START ]]; then\n        local -F elapsed=$(( EPOCHREALTIME - _CAPSULE_CMD_START ))\n        _CAPSULE_DURATION=$(( int(elapsed * 1000) ))\n        _CAPSULE_CMD_START=\"\"\n    fi\n    # Match Starship's default add_newline behavior.\n    print\n    if [[ -z $_CAPSULE_FD ]]; then\n        _capsule_fallback\n        return\n    fi\n    (( _CAPSULE_GENERATION++ ))\n    local meta\n    meta=$(_capsule_env_meta)\n    if ! print -r -p -- \"${_CAPSULE_GENERATION}\"$'\\t'\"${exit_code}\"$'\\t'\"${_CAPSULE_DURATION}\"$'\\t'\"${PWD}\"$'\\t'\"${COLUMNS}\"$'\\t'\"${KEYMAP:-main}\"$'\\t'\"${meta}\" 2>/dev/null; then\n        _CAPSULE_FD=\"\"\n        _capsule_fallback\n        return\n    fi\n    local kind gen left1 left2\n    while IFS=$'\\t' read -r -t 1 -u $_CAPSULE_FD kind gen left1 left2; do\n        if [[ $kind == R && $gen == $_CAPSULE_GENERATION ]]; then\n            _capsule_apply \"$left1\" \"$left2\"\n            return\n        fi\n    done\n    _capsule_fallback\n}\n\n_capsule_async_callback() {\n    local fd=$1 kind gen left1 left2\n    if ! IFS=$'\\t' read -r -u $fd kind gen left1 left2; then\n        zle -F $fd 2>/dev/null\n        _CAPSULE_FD=\"\"\n        return\n    fi\n    if [[ $kind == U && $gen == $_CAPSULE_GENERATION ]]; then\n        _capsule_apply \"$left1\" \"$left2\"\n        zle && zle reset-prompt\n    fi\n}\n\n_capsule_exit() {\n    [[ -n $_CAPSULE_FD ]] && exec {_CAPSULE_FD}<&- 2>/dev/null\n}\n\n_capsule_init() {\n    _capsule_session_id\n    export _CAPSULE_SESSION_ID\n    _capsule_fallback\n    _capsule_start_coproc || _CAPSULE_FD=\"\"\n    typeset -ga precmd_functions preexec_functions zshexit_functions\n    precmd_functions=(${precmd_functions:#_capsule_precmd} _capsule_precmd)\n    preexec_functions=(${preexec_functions:#_capsule_preexec} _capsule_preexec)\n    zshexit_functions=(${zshexit_functions:#_capsule_exit} _capsule_exit)\n}\n\n_capsule_init\n";

/// Generate the zsh initialization script, to be eval'd from `.zshrc`
/// (`eval "$(capsule init zsh)"`).
pub fn generate() -> (r: &'static str)
    ensures
        r@ == ZSH_INIT_SCRIPT@,
{
    ZSH_INIT_SCRIPT
}

} // verus!
