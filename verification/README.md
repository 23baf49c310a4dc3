# admin_backend

The rules of a multi-tenant administration backend, written in Verus and
proved against their contracts: who may see and change what (data scopes,
roles, departments, tenants), the checks every request body passes, the
life cycle of payment orders and refunds, chunked uploads, the file manager,
terminal and VNC sessions, command templates and workflows, image generation
and server monitoring.

## Layout

- `src/` is the verified library. Each module holds the records and request
  bodies of one area, the spec functions that say what its operations give,
  and the operations themselves with `requires`/`ensures` contracts. Public
  proof functions whose names start with `law_` state properties that relate
  several operations (for instance that a ticket is used at most once, that a
  data scope never reaches another tenant, or that a masked secret sent back
  keeps the stored one).
- Calls into outside crates (`serde_json`, `chrono`, `uuid`, `sha2`, `hex`,
  `base64`, `mime_guess`, `url`/`http` through `reqwest`) and a few std
  functions stand behind small trusted wrappers whose doc comments say what
  their contracts assume.
- `app/` is the runtime around the library: it reads the machine
  (`sysinfo`, `nvidia-smi`), talks to remote services (`reqwest`), touches the
  filesystem and drives multi-step operations whose decisions the library
  makes.
- `tests/` exercises the library on concrete values.
