//! Stop/start scripts run around a backend replacement, and the wrapper
//! that guarantees the start script runs even when the replacement fails.

use vstd::prelude::*;
use crate::config::BackendProject;
use crate::text::{
    chars_of, is_blank, owned, push_char, replace_all, replace_all_exec, string_of,
    trim, trim_end_char, trim_end_char_exec,
};

verus! {

/// IIS：只停物理路径匹配到的网站或应用程序池，不停 W3SVC / 不做 iisreset
pub const IIS_STOP_SCRIPT: &'static str = r#"# IIS 方案：只停本项目对应的网站或应用程序池，不会停止整个 IIS
$appDir = '{appDir}'.TrimEnd('\')
$offlineFile = Join-Path $appDir 'app_offline.htm'
$siteName = $null
$poolName = $null
$matchedKind = $null
try { Import-Module WebAdministration -ErrorAction Stop } catch {
  Write-Output '未能加载 WebAdministration 模块，无法按站点停止 IIS'
  $actionExit = 5
}
if ($actionExit -eq 0) {
  if (-not (Test-Path -LiteralPath $appDir)) { New-Item -ItemType Directory -Path $appDir -Force | Out-Null }
  foreach ($site in Get-Website) {
    $sitePhys = [Environment]::ExpandEnvironmentVariables([string]$site.physicalPath).TrimEnd('\')
    if ($appDir -ieq $sitePhys) {
      $siteName = [string]$site.Name
      $poolName = [string]$site.applicationPool
      $matchedKind = 'site'
      break
    }
    foreach ($app in @(Get-WebApplication -Site $site.Name -ErrorAction SilentlyContinue)) {
      $appPhys = [Environment]::ExpandEnvironmentVariables([string]$app.PhysicalPath).TrimEnd('\')
      if ($appDir -ieq $appPhys) {
        $siteName = [string]$site.Name
        $poolName = [string]$app.applicationPool
        $matchedKind = 'app'
        break
      }
    }
    if ($matchedKind) { break }
  }
  if (-not $poolName) {
    Write-Output ('未找到物理路径为 ' + $appDir + ' 的 IIS 站点或应用，请核对接目录或改脚本')
    $actionExit = 5
  } else {
    Set-Content -LiteralPath $offlineFile -Value '<html><body>deploying</body></html>' -Encoding ASCII
    Write-Output ('匹配到 IIS ' + $matchedKind + ' 站点=' + $siteName + ' 程序池=' + $poolName)
    if ($matchedKind -eq 'site' -and $siteName) {
      $siteState = [string](Get-WebsiteState -Name $siteName).Value
      if ($siteState -ne 'Stopped') {
        Stop-Website -Name $siteName
        Write-Output ('已停止网站 ' + $siteName)
      }
    }
    $poolState = [string](Get-WebAppPoolState -Name $poolName).Value
    if ($poolState -ne 'Stopped') {
      Stop-WebAppPool -Name $poolName
      $deadline = (Get-Date).AddSeconds(45)
      do {
        Start-Sleep -Seconds 1
        $poolState = [string](Get-WebAppPoolState -Name $poolName).Value
      } while ($poolState -ne 'Stopped' -and (Get-Date) -lt $deadline)
      Write-Output ('已停止应用程序池 ' + $poolName + ' 状态=' + $poolState)
    } else {
      Write-Output ('应用程序池 ' + $poolName + ' 已是停止状态')
    }
  }
}
"#;

pub const IIS_START_SCRIPT: &'static str = r#"# 先去掉 app_offline，再启动本项目对应的程序池/网站
if ($offlineFile -and (Test-Path -LiteralPath $offlineFile)) {
  Remove-Item -LiteralPath $offlineFile -Force -ErrorAction SilentlyContinue
  Write-Output '已移除 app_offline.htm'
}
if ($poolName) {
  try {
    $poolState = [string](Get-WebAppPoolState -Name $poolName).Value
    if ($poolState -ne 'Started') {
      Start-WebAppPool -Name $poolName
      $deadline = (Get-Date).AddSeconds(30)
      do {
        Start-Sleep -Seconds 1
        $poolState = [string](Get-WebAppPoolState -Name $poolName).Value
      } while ($poolState -ne 'Started' -and (Get-Date) -lt $deadline)
    }
    Write-Output ('已启动应用程序池 ' + $poolName + ' 状态=' + $poolState)
  } catch { Write-Output ('启动应用程序池失败: ' + $_) }
}
if ($matchedKind -eq 'site' -and $siteName) {
  try {
    $siteState = [string](Get-WebsiteState -Name $siteName).Value
    if ($siteState -ne 'Started') { Start-Website -Name $siteName }
    Write-Output ('已启动网站 ' + $siteName)
  } catch { Write-Output ('启动网站失败: ' + $_) }
}
"#;

/// Java：只停本项目对应的 Windows 服务（界面「填入 Java 方案」使用同一份脚本）
pub const JAVA_STOP_SCRIPT: &'static str = r#"# Java 方案：只停本项目的 Windows 服务，请把下一行改成实际服务名
$serviceName = '请填写Windows服务名'
if (-not $serviceName -or $serviceName -eq '请填写Windows服务名') {
  Write-Output '请把停止脚本中的服务名改成实际的 Windows 服务名'
  $actionExit = 5
} else {
  $svc = Get-Service -Name $serviceName -ErrorAction SilentlyContinue
  if (-not $svc) {
    Write-Output ('找不到 Windows 服务: ' + $serviceName)
    $actionExit = 5
  } elseif ($svc.Status -ne 'Stopped') {
    Stop-Service -Name $serviceName -Force
    try { $svc.WaitForStatus('Stopped', [TimeSpan]::FromSeconds(45)) } catch {}
    Write-Output ('已停止服务 ' + $serviceName + ' 状态=' + (Get-Service -Name $serviceName).Status)
  } else {
    Write-Output ('服务 ' + $serviceName + ' 已是停止状态')
  }
}
"#;

pub const JAVA_START_SCRIPT: &'static str = r#"if ($serviceName -and $serviceName -ne '请填写Windows服务名') {
  try {
    Start-Service -Name $serviceName
    $svc = Get-Service -Name $serviceName
    try { $svc.WaitForStatus('Running', [TimeSpan]::FromSeconds(45)) } catch {}
    Write-Output ('已启动服务 ' + $serviceName + ' 状态=' + (Get-Service -Name $serviceName).Status)
  } catch { Write-Output ('启动服务失败: ' + $_) }
}
"#;

} // verus!

verus! {

/// PowerShell single-quoted value: trailing backslashes removed, quotes doubled.
pub open spec fn spec_escape_ps(value: Seq<char>) -> Seq<char> {
    replace_all(trim_end_char(value, '\\'), "'"@, "''"@)
}

pub fn escape_ps(value: &str) -> (r: Vec<char>)
    ensures
        r@ == spec_escape_ps(value@),
{
    let v = chars_of(value);
    let trimmed = trim_end_char_exec(v.as_slice(), '\\');
    let quote = chars_of("'");
    let doubled = chars_of("''");
    proof {
        reveal_strlit("'");
    }
    replace_all_exec(trimmed.as_slice(), quote.as_slice(), doubled.as_slice())
}

/// `{appDir}`, `{appBin}` and `{projectName}` replaced, in that order, by
/// the escaped values.
pub open spec fn spec_fill_placeholders(
    script: Seq<char>,
    app_dir: Seq<char>,
    app_bin: Seq<char>,
    project_name: Seq<char>,
) -> Seq<char> {
    let s1 = replace_all(script, "{appDir}"@, spec_escape_ps(app_dir));
    let s2 = replace_all(s1, "{appBin}"@, spec_escape_ps(app_bin));
    replace_all(s2, "{projectName}"@, spec_escape_ps(project_name))
}

pub fn fill_placeholders(script: &str, app_dir: &str, app_bin: &str, project_name: &str) -> (r:
    String)
    ensures
        r@ == spec_fill_placeholders(script@, app_dir@, app_bin@, project_name@),
{
    proof {
        reveal_strlit("{appDir}");
        reveal_strlit("{appBin}");
        reveal_strlit("{projectName}");
    }
    let s0 = chars_of(script);
    let p1 = chars_of("{appDir}");
    let r1 = escape_ps(app_dir);
    let s1 = replace_all_exec(s0.as_slice(), p1.as_slice(), r1.as_slice());
    let p2 = chars_of("{appBin}");
    let r2 = escape_ps(app_bin);
    let s2 = replace_all_exec(s1.as_slice(), p2.as_slice(), r2.as_slice());
    let p3 = chars_of("{projectName}");
    let r3 = escape_ps(project_name);
    let s3 = replace_all_exec(s2.as_slice(), p3.as_slice(), r3.as_slice());
    string_of(s3.as_slice())
}

/// The stop and start scripts of a project: its own scripts when either is
/// non-blank; otherwise the IIS scripts when `stop_iis_before_replace` is
/// set; otherwise none. Placeholders are filled with the application
/// directory, that directory without trailing backslashes, and the name.
pub open spec fn spec_resolve_scripts(project: BackendProject) -> (Seq<char>, Seq<char>) {
    let dir = project.remote_app_dir@;
    let bin = trim_end_char(dir, '\\');
    let name = project.name@;
    if trim(project.stop_script@).len() != 0 || trim(project.start_script@).len() != 0 {
        (
            spec_fill_placeholders(project.stop_script@, dir, bin, name),
            spec_fill_placeholders(project.start_script@, dir, bin, name),
        )
    } else if project.stop_iis_before_replace {
        (
            spec_fill_placeholders(IIS_STOP_SCRIPT@, dir, bin, name),
            spec_fill_placeholders(IIS_START_SCRIPT@, dir, bin, name),
        )
    } else {
        (Seq::empty(), Seq::empty())
    }
}

pub fn resolve_scripts(project: &BackendProject) -> (r: (String, String))
    ensures
        (r.0@, r.1@) == spec_resolve_scripts(*project),
{
    let dir = chars_of(project.remote_app_dir.as_str());
    let bin_chars = trim_end_char_exec(dir.as_slice(), '\\');
    let app_bin = string_of(bin_chars.as_slice());
    let app_dir = project.remote_app_dir.as_str();
    let name = project.name.as_str();
    if !is_blank(project.stop_script.as_str()) || !is_blank(project.start_script.as_str()) {
        return (
            fill_placeholders(project.stop_script.as_str(), app_dir, app_bin.as_str(), name),
            fill_placeholders(project.start_script.as_str(), app_dir, app_bin.as_str(), name),
        );
    }
    if project.stop_iis_before_replace {
        return (
            fill_placeholders(IIS_STOP_SCRIPT, app_dir, app_bin.as_str(), name),
            fill_placeholders(IIS_START_SCRIPT, app_dir, app_bin.as_str(), name),
        );
    }
    (String::new(), String::new())
}

pub open spec fn wrap_header() -> Seq<char> {
    "$ErrorActionPreference = 'Continue'\n$actionExit = 0\n"@
}

pub open spec fn wrap_footer() -> Seq<char> {
    "if ($null -eq $actionExit) { $actionExit = 0 }\nexit $actionExit\n"@
}

/// A script with a trailing newline, or nothing when it is blank.
pub open spec fn line_unless_blank(script: Seq<char>) -> Seq<char> {
    if trim(script).len() == 0 { Seq::empty() } else { script.push('\n') }
}

/// Stop script, then the replacement, then the start script in a
/// `finally` block so that it runs even when the replacement fails; the
/// script exits with `$actionExit`.
pub open spec fn spec_wrap_with_service_scripts(
    stop_script: Seq<char>,
    start_script: Seq<char>,
    inner_script: Seq<char>,
) -> Seq<char> {
    let has_wrap = trim(stop_script).len() != 0 || trim(start_script).len() != 0;
    let body = if has_wrap {
        "try {\n"@ + line_unless_blank(stop_script) + inner_script + "\n} finally {\n"@
            + line_unless_blank(start_script) + "}\n"@
    } else {
        inner_script.push('\n')
    };
    wrap_header() + body + wrap_footer()
}

/// Whatever the wrapped script runs, the wrapper runs too: the stop and
/// start scripts are added around it, never in place of it.
pub proof fn lemma_wrap_keeps_inner(stop_script: Seq<char>, start_script: Seq<char>, inner_script: Seq<char>, part: Seq<char>)
    requires
        crate::text::contains(inner_script, part),
    ensures
        crate::text::contains(spec_wrap_with_service_scripts(stop_script, start_script, inner_script), part),
{
    let has_wrap = trim(stop_script).len() != 0 || trim(start_script).len() != 0;
    if has_wrap {
        let a = wrap_header() + "try {\n"@ + line_unless_blank(stop_script);
        let b = "\n} finally {\n"@ + line_unless_blank(start_script) + "}\n"@ + wrap_footer();
        crate::text::lemma_contains_extend(a, inner_script, b, part);
        assert(spec_wrap_with_service_scripts(stop_script, start_script, inner_script) =~= a + inner_script + b);
    } else {
        let b = seq!['\n'] + wrap_footer();
        crate::text::lemma_contains_extend(wrap_header(), inner_script, b, part);
        assert(spec_wrap_with_service_scripts(stop_script, start_script, inner_script) =~= wrap_header() + inner_script + b);
    }
}

pub fn wrap_with_service_scripts(stop_script: &str, start_script: &str, inner_script: &str) -> (r:
    String)
    ensures
        r@ == spec_wrap_with_service_scripts(stop_script@, start_script@, inner_script@),
{
    let mut script = owned("$ErrorActionPreference = 'Continue'\n$actionExit = 0\n");
    let stop_blank = is_blank(stop_script);
    let start_blank = is_blank(start_script);
    let ghost body: Seq<char>;
    if !stop_blank || !start_blank {
        script.append("try {\n");
        if !stop_blank {
            script.append(stop_script);
            push_char(&mut script, '\n');
        }
        script.append(inner_script);
        script.append("\n} finally {\n");
        if !start_blank {
            script.append(start_script);
            push_char(&mut script, '\n');
        }
        script.append("}\n");
        proof {
            body = "try {\n"@ + line_unless_blank(stop_script@) + inner_script@ + "\n} finally {\n"@
                + line_unless_blank(start_script@) + "}\n"@;
            assert(script@ =~= wrap_header() + body);
        }
    } else {
        script.append(inner_script);
        push_char(&mut script, '\n');
        proof {
            body = inner_script@.push('\n');
            assert(script@ =~= wrap_header() + body);
        }
    }
    script.append("if ($null -eq $actionExit) { $actionExit = 0 }\nexit $actionExit\n");
    script
}

} // verus!
