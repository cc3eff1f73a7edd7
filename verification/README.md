# ai-vmm

An agentic hypervisor. `ai-vmm run "<intent>"` asks a reasoning model for an
execution plan, shows it for review, and on approval boots the virtual machine
through KVM. `ai-vmm serve` offers the same over HTTP.

The model does the reasoning; it never sets the limits. Every bound, and every
decision from the plan to the virtqueue, the wind-down of a VM and the removal of
its TAP interface among them, is in the library and verified with Verus.

- `src/` is the verified library. It performs no I/O: it takes what was read and
  says what to do next.
- `app/` is the program around it: arguments, files, HTTP, processes and KVM.
- `tests/` runs the library on concrete values.

## Configuration

| Setting | Environment | `credentials.toml` | Default |
|---|---|---|---|
| Kernel | `AI_VMM_KERNEL` | `kernel_path` | `./vmlinux` |
| Disk | `AI_VMM_DISK` | `disk_path` | none: a disk is needed |
| Provider | `AI_VMM_PROVIDER` | `provider` | the hosted Anthropic API |
| Model | `AI_VMM_MODEL` | `model` | the build's, for the hosted API |
| Base URL | `AI_VMM_BASE_URL` | `base_url` | `http://localhost:11434/v1` |

The key for the hosted API comes from `ANTHROPIC_API_KEY` or `ai-vmm auth login`.
The server needs `AI_VMM_API_TOKEN`.

## Building

Two names are given to the program when it is built, as environment variables of
the compiler: `AI_VMM_DEFAULT_MODEL` is the hosted model to ask where no model is
configured, and `AI_VMM_HOSTED_ALIAS` is a further name that `AI_VMM_PROVIDER` may
give the hosted API. A build without the first needs a configured model.
